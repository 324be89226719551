use vstd::prelude::*;
use crate::image::{ImageData, ImageId, ImageInfo, ImageModel, InfoModel, option_model, summary_of};

verus! {

/// Mathematical value of an [`ImageStore`]: the next identifier to hand out
/// and the records in the order they were stored.
pub ghost struct StoreModel {
    pub next_id: u64,
    pub images: Seq<ImageModel>,
}

/// A fresh model: counter at one, no records.
pub open spec fn empty_model() -> StoreModel {
    StoreModel { next_id: 1, images: Seq::empty() }
}

/// Identifiers start at one, rise strictly along the records, and all lie
/// below the counter.
pub open spec fn model_wf(m: StoreModel) -> bool {
    &&& m.next_id >= 1
    &&& forall|i: int, j: int| 0 <= i < j < m.images.len() ==> m.images[i].id < m.images[j].id
    &&& forall|i: int| 0 <= i < m.images.len() ==> 1 <= #[trigger] m.images[i].id < m.next_id
}

/// Whether some record carries `id`.
pub open spec fn has_id(images: Seq<ImageModel>, id: u64) -> bool {
    exists|i: int| 0 <= i < images.len() && images[i].id == id
}

/// The record that carries `id`, if any.
pub open spec fn lookup(images: Seq<ImageModel>, id: u64) -> Option<ImageModel> {
    if has_id(images, id) {
        Some(images[choose|i: int| 0 <= i < images.len() && images[i].id == id])
    } else {
        None
    }
}

/// The model after storing one record, and the identifier it received.
pub open spec fn upload_model(m: StoreModel, name: Seq<char>, content_type: Seq<char>, data: Seq<u8>) -> (StoreModel, u64) {
    let id = m.next_id;
    (
        StoreModel {
            next_id: (m.next_id + 1) as u64,
            images: m.images.push(ImageModel { id, name, content_type, data }),
        },
        id,
    )
}

/// The summaries of all records, in storage order.
pub open spec fn list_model(m: StoreModel) -> Seq<InfoModel> {
    m.images.map_values(|r: ImageModel| summary_of(r))
}

/// In a well-formed model, the record found at an index is the one that
/// `lookup` gives for its identifier.
pub proof fn lemma_lookup_index(m: StoreModel, k: int)
    requires
        model_wf(m),
        0 <= k < m.images.len(),
    ensures
        lookup(m.images, m.images[k].id) == Some(m.images[k]),
{
    let id = m.images[k].id;
    assert(has_id(m.images, id));
    let c = choose|i: int| 0 <= i < m.images.len() && m.images[i].id == id;
    if c < k {
        assert(m.images[c].id < m.images[k].id);
    } else if k < c {
        assert(m.images[k].id < m.images[c].id);
    }
}

/// The inputs of one upload: name, content type and bytes.
pub type UploadModel = (Seq<char>, Seq<char>, Seq<u8>);

/// The model after a sequence of uploads, and the identifiers they received,
/// in order.
pub open spec fn upload_all(m: StoreModel, uploads: Seq<UploadModel>) -> (StoreModel, Seq<u64>)
    decreases uploads.len(),
{
    if uploads.len() == 0 {
        (m, Seq::empty())
    } else {
        let (m1, ids) = upload_all(m, uploads.drop_last());
        let u = uploads.last();
        let (m2, id) = upload_model(m1, u.0, u.1, u.2);
        (m2, ids.push(id))
    }
}

/// One upload keeps the model well formed.
pub proof fn lemma_upload_wf(m: StoreModel, name: Seq<char>, content_type: Seq<char>, data: Seq<u8>)
    requires
        model_wf(m),
        m.next_id < u64::MAX,
    ensures
        model_wf(upload_model(m, name, content_type, data).0),
{
}

/// What a sequence of uploads does: the counter moves on by their number,
/// the i-th upload gets the old counter plus i, and its record is appended.
pub proof fn lemma_upload_all(m: StoreModel, uploads: Seq<UploadModel>)
    requires
        model_wf(m),
        m.next_id + uploads.len() <= u64::MAX,
    ensures
        model_wf(upload_all(m, uploads).0),
        upload_all(m, uploads).0.next_id == m.next_id + uploads.len(),
        upload_all(m, uploads).1.len() == uploads.len(),
        upload_all(m, uploads).0.images.len() == m.images.len() + uploads.len(),
        forall|i: int| 0 <= i < m.images.len() ==> upload_all(m, uploads).0.images[i] == m.images[i],
        forall|i: int|
            0 <= i < uploads.len() ==> #[trigger] upload_all(m, uploads).1[i] == m.next_id + i
                && upload_all(m, uploads).0.images[m.images.len() + i] == (ImageModel {
                    id: upload_all(m, uploads).1[i],
                    name: uploads[i].0,
                    content_type: uploads[i].1,
                    data: uploads[i].2,
                }),
    decreases uploads.len(),
{
    if uploads.len() > 0 {
        let prev = uploads.drop_last();
        lemma_upload_all(m, prev);
        let (m1, ids) = upload_all(m, prev);
        let u = uploads.last();
        lemma_upload_wf(m1, u.0, u.1, u.2);
        assert forall|i: int| 0 <= i < uploads.len() implies #[trigger] upload_all(m, uploads).1[i] == m.next_id + i
            && upload_all(m, uploads).0.images[m.images.len() + i] == (ImageModel {
                id: upload_all(m, uploads).1[i],
                name: uploads[i].0,
                content_type: uploads[i].1,
                data: uploads[i].2,
            }) by {
            if i < prev.len() {
                assert(ids[i] == m.next_id + i);
                assert(prev[i] == uploads[i]);
            }
        }
    }
}

/// Identifiers handed out by a sequence of uploads rise strictly, so no two
/// are equal, and none equals an identifier already in the store.
pub proof fn lemma_upload_ids_increase(m: StoreModel, uploads: Seq<UploadModel>)
    requires
        model_wf(m),
        m.next_id + uploads.len() <= u64::MAX,
    ensures
        forall|i: int, j: int|
            0 <= i < j < uploads.len() ==> #[trigger] upload_all(m, uploads).1[i] < #[trigger] upload_all(
                m,
                uploads,
            ).1[j],
        forall|i: int, k: int|
            0 <= i < uploads.len() && 0 <= k < m.images.len() ==> #[trigger] upload_all(m, uploads).1[i]
                != #[trigger] m.images[k].id,
{
    lemma_upload_all(m, uploads);
}

/// Looking up the identifier that an upload returned gives back exactly what
/// was uploaded.
pub proof fn lemma_get_after_upload(m: StoreModel, name: Seq<char>, content_type: Seq<char>, data: Seq<u8>)
    requires
        model_wf(m),
        m.next_id < u64::MAX,
    ensures
        lookup(upload_model(m, name, content_type, data).0.images, upload_model(m, name, content_type, data).1)
            == Some(ImageModel { id: m.next_id, name, content_type, data }),
{
    let m2 = upload_model(m, name, content_type, data).0;
    lemma_upload_wf(m, name, content_type, data);
    lemma_lookup_index(m2, m.images.len() as int);
}

/// After any number of uploads into a new store, the listing holds one
/// summary per upload, in order, with the identifier it returned and the name
/// and content type it was given.
pub proof fn lemma_list_after_uploads(uploads: Seq<UploadModel>)
    requires
        uploads.len() < u64::MAX,
    ensures
        list_model(upload_all(empty_model(), uploads).0).len() == uploads.len(),
        forall|i: int|
            0 <= i < uploads.len() ==> #[trigger] list_model(upload_all(empty_model(), uploads).0)[i] == (InfoModel {
                id: upload_all(empty_model(), uploads).1[i],
                name: uploads[i].0,
                content_type: uploads[i].1,
            }),
{
    lemma_upload_all(empty_model(), uploads);
}

/// Reading does not depend on anything but the store: two lookups of one
/// identifier, or two listings, on an unchanged store agree.
pub proof fn lemma_reads_repeat(
    s: ImageStore,
    id: u64,
    first: Option<ImageData>,
    second: Option<ImageData>,
    list_first: Seq<InfoModel>,
    list_second: Seq<InfoModel>,
)
    requires
        option_model(first) == lookup(s@.images, id),
        option_model(second) == lookup(s@.images, id),
        list_first == list_model(s@),
        list_second == list_model(s@),
    ensures
        option_model(first) == option_model(second),
        list_first == list_second,
{
}

/// All images held in memory, with the counter that hands out identifiers.
pub struct ImageStore {
    next_id: u64,
    images: Vec<ImageData>,
}

impl View for ImageStore {
    type V = StoreModel;

    closed spec fn view(&self) -> StoreModel {
        StoreModel { next_id: self.next_id, images: self.images@.map_values(|d: ImageData| d@) }
    }
}

impl ImageStore {
    /// The store invariant, over the model.
    pub open spec fn wf(&self) -> bool {
        model_wf(self@)
    }

    /// An empty store whose first identifier is one.
    pub fn new() -> (r: ImageStore)
        ensures
            r.wf(),
            r@ == empty_model(),
    {
        let r = ImageStore { next_id: 1, images: Vec::new() };
        assert(r@.images =~= Seq::<ImageModel>::empty());
        r
    }

    /// The identifier that the next upload receives.
    pub fn next_id(&self) -> (r: ImageId)
        ensures
            r == self@.next_id,
    {
        self.next_id
    }

    /// Stores a new record under a fresh identifier and returns that
    /// identifier. Nothing about the name, type or bytes is checked.
    pub fn upload_image(&mut self, name: String, content_type: String, data: Vec<u8>) -> (id: ImageId)
        requires
            old(self).wf(),
            old(self)@.next_id < u64::MAX,
        ensures
            final(self).wf(),
            (final(self)@, id) == upload_model(old(self)@, name@, content_type@, data@),
            forall|k: int| 0 <= k < old(self)@.images.len() ==> #[trigger] old(self)@.images[k].id < id,
            !has_id(old(self)@.images, id),
            id < final(self)@.next_id,
            lookup(final(self)@.images, id) == Some(
                ImageModel { id, name: name@, content_type: content_type@, data: data@ },
            ),
    {
        proof {
            lemma_get_after_upload(old(self)@, name@, content_type@, data@);
        }
        let id = self.next_id;
        self.next_id = self.next_id + 1;
        let image = ImageData { id, name, content_type, data };
        self.images.push(image);
        assert(self@.images =~= old(self)@.images.push(image@));
        id
    }

    /// A copy of the record stored under `id`, or `None` when there is none.
    pub fn get_image(&self, id: ImageId) -> (r: Option<ImageData>)
        requires
            self.wf(),
        ensures
            option_model(r) == lookup(self@.images, id),
    {
        let mut lo: usize = 0;
        let mut hi: usize = self.images.len();
        while lo < hi
            invariant
                self.wf(),
                0 <= lo <= hi <= self.images@.len(),
                forall|j: int| 0 <= j < lo ==> #[trigger] self@.images[j].id < id,
                forall|j: int| hi <= j < self.images@.len() ==> #[trigger] self@.images[j].id > id,
            decreases hi - lo,
        {
            let mid = lo + (hi - lo) / 2;
            let found = self.images[mid].id;
            assert(found == self@.images[mid as int].id);
            if found == id {
                proof {
                    lemma_lookup_index(self@, mid as int);
                }
                return Some(self.images[mid].duplicate());
            } else if found < id {
                assert forall|j: int| 0 <= j < mid + 1 implies #[trigger] self@.images[j].id < id by {
                    if j < mid {
                        assert(self@.images[j].id < self@.images[mid as int].id);
                    }
                }
                lo = mid + 1;
            } else {
                assert forall|j: int| mid <= j < self.images@.len() implies #[trigger] self@.images[j].id > id by {
                    if j > mid {
                        assert(self@.images[mid as int].id < self@.images[j].id);
                    }
                }
                hi = mid;
            }
        }
        None
    }

    /// The summaries of all records, in the order they were stored.
    pub fn list_images(&self) -> (r: Vec<ImageInfo>)
        ensures
            r@.map_values(|s: ImageInfo| s@) == list_model(self@),
    {
        let n = self.images.len();
        let mut out: Vec<ImageInfo> = Vec::new();
        let mut i: usize = 0;
        while i < n
            invariant
                n == self.images@.len(),
                0 <= i <= n,
                out@.len() == i,
                forall|j: int| 0 <= j < i ==> out@[j]@ == summary_of(self@.images[j]),
            decreases n - i,
        {
            out.push(self.images[i].info());
            i = i + 1;
        }
        assert(out@.map_values(|s: ImageInfo| s@) =~= list_model(self@));
        out
    }
}

} // verus!
