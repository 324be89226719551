use pictures_site_backend::store::ImageStore;

#[test]
fn new_store_is_empty_and_starts_at_one() {
    let s = ImageStore::new();
    assert_eq!(s.next_id(), 1);
    assert!(s.list_images().is_empty());
    assert!(s.get_image(1).is_none());
    assert!(s.get_image(0).is_none());
}

#[test]
fn upload_ids_strictly_increase() {
    let mut s = ImageStore::new();
    let mut last = 0u64;
    for k in 0..20u8 {
        let id = s.upload_image(format!("n{}", k), "image/png".to_string(), vec![k]);
        assert!(id > last);
        last = id;
    }
    assert_eq!(last, 20);
    assert_eq!(s.next_id(), 21);
}

#[test]
fn get_after_upload_returns_same_record() {
    let mut s = ImageStore::new();
    s.upload_image("first".to_string(), "image/gif".to_string(), vec![9]);
    let id = s.upload_image("cat.jpg".to_string(), "image/jpeg".to_string(), vec![1, 2, 3, 255]);
    let r = s.get_image(id).expect("stored record");
    assert_eq!(r.id, id);
    assert_eq!(r.name, "cat.jpg");
    assert_eq!(r.content_type, "image/jpeg");
    assert_eq!(r.data, vec![1, 2, 3, 255]);
}

#[test]
fn upload_accepts_empty_values() {
    let mut s = ImageStore::new();
    let id = s.upload_image(String::new(), String::new(), Vec::new());
    let r = s.get_image(id).unwrap();
    assert_eq!(r.name, "");
    assert_eq!(r.content_type, "");
    assert!(r.data.is_empty());
}

#[test]
fn list_after_uploads_has_one_summary_each() {
    let mut s = ImageStore::new();
    let mut ids = Vec::new();
    for k in 0..5u8 {
        ids.push(s.upload_image(format!("img{}", k), format!("image/t{}", k), vec![k; 3]));
    }
    let list = s.list_images();
    assert_eq!(list.len(), 5);
    for (k, info) in list.iter().enumerate() {
        assert_eq!(info.id, ids[k]);
        assert_eq!(info.name, format!("img{}", k));
        assert_eq!(info.content_type, format!("image/t{}", k));
    }
}

#[test]
fn get_missing_id_is_none() {
    let mut s = ImageStore::new();
    s.upload_image("a".to_string(), "image/png".to_string(), vec![1]);
    assert!(s.get_image(2).is_none());
    assert!(s.get_image(999999).is_none());
    assert!(s.get_image(u64::MAX).is_none());
}

#[test]
fn repeated_reads_agree() {
    let mut s = ImageStore::new();
    let id = s.upload_image("a.png".to_string(), "image/png".to_string(), vec![4, 5]);
    s.upload_image("b.png".to_string(), "image/png".to_string(), vec![6]);
    let a = s.get_image(id).unwrap();
    let b = s.get_image(id).unwrap();
    assert_eq!((a.id, a.name, a.content_type, a.data), (b.id, b.name, b.content_type, b.data));
    let l1: Vec<_> = s.list_images().into_iter().map(|i| (i.id, i.name, i.content_type)).collect();
    let l2: Vec<_> = s.list_images().into_iter().map(|i| (i.id, i.name, i.content_type)).collect();
    assert_eq!(l1, l2);
}

#[test]
fn get_finds_every_record_among_many() {
    let mut s = ImageStore::new();
    for k in 0..100u32 {
        s.upload_image(format!("n{}", k), "image/png".to_string(), k.to_le_bytes().to_vec());
    }
    for id in 1..=100u64 {
        let r = s.get_image(id).unwrap();
        assert_eq!(r.id, id);
        assert_eq!(r.name, format!("n{}", id - 1));
        assert_eq!(r.data, ((id - 1) as u32).to_le_bytes().to_vec());
    }
    assert!(s.get_image(0).is_none());
    assert!(s.get_image(101).is_none());
}
