use pictures_site_backend::text::quoted_decimal;
use pictures_site_backend::http::{
    create_not_found_response, has_matching_etag, is_validator, route_image_id, HeaderField, HttpRequest,
    HttpResponse,
};
use pictures_site_backend::store::ImageStore;

fn get(url: &str, headers: Vec<(&str, &str)>) -> HttpRequest {
    HttpRequest {
        method: "GET".to_string(),
        url: url.to_string(),
        headers: headers.into_iter().map(|(n, v)| HeaderField(n.to_string(), v.to_string())).collect(),
        body: Vec::new(),
    }
}

fn headers_of(r: &HttpResponse) -> Vec<(String, String)> {
    r.headers.iter().map(|h| (h.0.clone(), h.1.clone())).collect()
}

fn store_with_png() -> (ImageStore, u64) {
    let mut s = ImageStore::new();
    let id = s.upload_image("a.png".to_string(), "image/png".to_string(), vec![0x01, 0x02, 0x03]);
    (s, id)
}

fn assert_not_found(r: &HttpResponse) {
    assert_eq!(r.status_code, 404);
    assert_eq!(r.body, b"Not Found".to_vec());
    assert_eq!(headers_of(r), vec![("Content-Type".to_string(), "text/plain".to_string())]);
}

const CACHE: &str = "public, max-age=31536000, immutable";

#[test]
fn round_trip_with_extension() {
    let (s, id) = store_with_png();
    let r = s.http_request(&get(&format!("/image/{}.png", id), vec![]));
    assert_eq!(r.status_code, 200);
    assert_eq!(r.body, vec![0x01, 0x02, 0x03]);
    assert_eq!(
        headers_of(&r),
        vec![
            ("Content-Type".to_string(), "image/png".to_string()),
            ("Cache-Control".to_string(), CACHE.to_string()),
            ("ETag".to_string(), format!("\"{}\"", id)),
        ]
    );
}

#[test]
fn matching_if_none_match_gives_304() {
    let (s, id) = store_with_png();
    let etag = format!("\"{}\"", id);
    let r = s.http_request(&get(&format!("/image/{}.png", id), vec![("If-None-Match", &etag)]));
    assert_eq!(r.status_code, 304);
    assert!(r.body.is_empty());
    assert_eq!(
        headers_of(&r),
        vec![("ETag".to_string(), etag.clone()), ("Cache-Control".to_string(), CACHE.to_string())]
    );
}

#[test]
fn header_name_matches_in_any_case() {
    let (s, id) = store_with_png();
    let etag = format!("\"{}\"", id);
    let r = s.http_request(&get(&format!("/image/{}", id), vec![("Accept", "*/*"), ("IF-NONE-MATCH", &etag)]));
    assert_eq!(r.status_code, 304);
}

#[test]
fn validator_value_must_match_exactly() {
    let (s, id) = store_with_png();
    for v in [format!("{}", id), format!("W/\"{}\"", id), "\"999\"".to_string()] {
        let r = s.http_request(&get(&format!("/image/{}", id), vec![("If-None-Match", &v)]));
        assert_eq!(r.status_code, 200);
    }
}

#[test]
fn never_issued_id_is_404() {
    let (s, _) = store_with_png();
    assert_not_found(&s.http_request(&get("/image/999999", vec![])));
}

#[test]
fn other_routes_are_404() {
    let (s, _) = store_with_png();
    assert_not_found(&s.http_request(&get("/not-image/5", vec![])));
    assert_not_found(&s.http_request(&get("/", vec![])));
    assert_not_found(&s.http_request(&get("", vec![])));
    assert_not_found(&s.http_request(&get("/images/1", vec![])));
}

#[test]
fn non_numeric_id_is_404() {
    let mut s = ImageStore::new();
    for _ in 0..12 {
        s.upload_image("x".to_string(), "image/png".to_string(), vec![7]);
    }
    assert_eq!(s.http_request(&get("/image/12", vec![])).status_code, 200);
    assert_not_found(&s.http_request(&get("/image/12abc", vec![])));
    assert_not_found(&s.http_request(&get("/image/", vec![])));
    assert_not_found(&s.http_request(&get("/image/.png", vec![])));
    assert_not_found(&s.http_request(&get("/image/-1", vec![])));
}

#[test]
fn only_first_dot_counts() {
    let mut s = ImageStore::new();
    for _ in 0..5 {
        s.upload_image("x".to_string(), "image/png".to_string(), vec![5]);
    }
    let r = s.http_request(&get("/image/5.tar.gz", vec![]));
    assert_eq!(r.status_code, 200);
    assert_eq!(r.body, vec![5]);
}

#[test]
fn only_one_leading_slash_is_stripped() {
    let (s, id) = store_with_png();
    assert_eq!(s.http_request(&get(&format!("image/{}", id), vec![])).status_code, 200);
    assert_not_found(&s.http_request(&get(&format!("//image/{}", id), vec![])));
}

#[test]
fn route_parses_ids() {
    assert_eq!(route_image_id("/image/42"), Some(42));
    assert_eq!(route_image_id("/image/007.jpg"), Some(7));
    assert_eq!(route_image_id("/image/+3"), Some(3));
    assert_eq!(route_image_id("/image/18446744073709551615"), Some(u64::MAX));
    assert_eq!(route_image_id("/image/18446744073709551616"), None);
    assert_eq!(route_image_id("/image/1 "), None);
    assert_eq!(route_image_id("/image/12abc"), None);
}

#[test]
fn validator_checks() {
    assert!(is_validator("if-none-match", "\"3\"", "\"3\""));
    assert!(!is_validator("If-None-Match", "\"3\"", "\"3\""));
    assert!(!is_validator("if-none-match", "\"4\"", "\"3\""));
    let h = vec![HeaderField("If-None-Match".to_string(), "\"10\"".to_string())];
    assert!(has_matching_etag(&h, "\"10\""));
    assert!(!has_matching_etag(&h, "\"1\""));
    assert!(!has_matching_etag(&Vec::new(), "\"1\""));
}

#[test]
fn not_found_response_shape() {
    assert_not_found(&create_not_found_response());
}

#[test]
fn etag_is_quoted_decimal() {
    assert_eq!(quoted_decimal(0), "\"0\"");
    assert_eq!(quoted_decimal(42), "\"42\"");
    assert_eq!(quoted_decimal(u64::MAX), "\"18446744073709551615\"");
}
