use vstd::prelude::*;

verus! {

/// Identifier of a stored image.
pub type ImageId = u64;

/// A stored image: identifier, display name, MIME type and raw bytes.
pub struct ImageData {
    pub id: ImageId,
    pub name: String,
    pub content_type: String,
    pub data: Vec<u8>,
}

/// The projection of an [`ImageData`] without its bytes.
pub struct ImageInfo {
    pub id: ImageId,
    pub name: String,
    pub content_type: String,
}

/// Mathematical value of an [`ImageData`].
pub ghost struct ImageModel {
    pub id: u64,
    pub name: Seq<char>,
    pub content_type: Seq<char>,
    pub data: Seq<u8>,
}

/// Mathematical value of an [`ImageInfo`].
pub ghost struct InfoModel {
    pub id: u64,
    pub name: Seq<char>,
    pub content_type: Seq<char>,
}

impl View for ImageData {
    type V = ImageModel;

    open spec fn view(&self) -> ImageModel {
        ImageModel { id: self.id, name: self.name@, content_type: self.content_type@, data: self.data@ }
    }
}

impl View for ImageInfo {
    type V = InfoModel;

    open spec fn view(&self) -> InfoModel {
        InfoModel { id: self.id, name: self.name@, content_type: self.content_type@ }
    }
}

/// The summary that a listing shows for a record.
pub open spec fn summary_of(m: ImageModel) -> InfoModel {
    InfoModel { id: m.id, name: m.name, content_type: m.content_type }
}

/// The value of an optional record.
pub open spec fn option_model(r: Option<ImageData>) -> Option<ImageModel> {
    match r {
        Some(d) => Some(d@),
        None => None,
    }
}

impl ImageData {
    /// A copy of this record, field by field.
    pub fn duplicate(&self) -> (r: ImageData)
        ensures
            r@ == self@,
    {
        ImageData {
            id: self.id,
            name: self.name.clone(),
            content_type: self.content_type.clone(),
            data: self.data.clone(),
        }
    }

    /// The summary of this record.
    pub fn info(&self) -> (r: ImageInfo)
        ensures
            r@ == summary_of(self@),
    {
        ImageInfo { id: self.id, name: self.name.clone(), content_type: self.content_type.clone() }
    }
}

} // verus!
