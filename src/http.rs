use vstd::prelude::*;
use crate::image::{ImageData, ImageModel};
use crate::store::{ImageStore, StoreModel, lemma_get_after_upload, lookup, model_wf, upload_model};
use crate::text::{
    decimal, etag_of, is_digit, lemma_decimal_value, lemma_parse_decimal, lower_of, lowercase, parse_u64,
    parsed_u64, quoted_decimal, same_text,
};

verus! {

/// One header line: name and value.
pub struct HeaderField(pub String, pub String);

/// A request as the router sees it. Only the URL and the headers matter.
pub struct HttpRequest {
    pub method: String,
    pub url: String,
    pub headers: Vec<HeaderField>,
    pub body: Vec<u8>,
}

/// A response: status code, ordered headers and body bytes.
pub struct HttpResponse {
    pub status_code: u16,
    pub headers: Vec<HeaderField>,
    pub body: Vec<u8>,
}

/// Mathematical value of a header sequence.
pub type HeadersModel = Seq<(Seq<char>, Seq<char>)>;

/// Mathematical value of an [`HttpRequest`].
pub ghost struct RequestModel {
    pub method: Seq<char>,
    pub url: Seq<char>,
    pub headers: HeadersModel,
    pub body: Seq<u8>,
}

/// Mathematical value of an [`HttpResponse`].
pub ghost struct ResponseModel {
    pub status_code: u16,
    pub headers: HeadersModel,
    pub body: Seq<u8>,
}

impl View for HeaderField {
    type V = (Seq<char>, Seq<char>);

    open spec fn view(&self) -> (Seq<char>, Seq<char>) {
        (self.0@, self.1@)
    }
}

/// The value of a vector of headers.
pub open spec fn headers_model(h: Seq<HeaderField>) -> HeadersModel {
    h.map_values(|f: HeaderField| f@)
}

impl View for HttpRequest {
    type V = RequestModel;

    open spec fn view(&self) -> RequestModel {
        RequestModel {
            method: self.method@,
            url: self.url@,
            headers: headers_model(self.headers@),
            body: self.body@,
        }
    }
}

impl View for HttpResponse {
    type V = ResponseModel;

    open spec fn view(&self) -> ResponseModel {
        ResponseModel { status_code: self.status_code, headers: headers_model(self.headers@), body: self.body@ }
    }
}

/// The caching directive sent with every image and revalidation answer.
pub open spec fn cache_directive() -> Seq<char> {
    "public, max-age=31536000, immutable"@
}

/// The bytes of `Not Found`.
pub open spec fn not_found_body() -> Seq<u8> {
    seq![78u8, 111u8, 116u8, 32u8, 70u8, 111u8, 117u8, 110u8, 100u8]
}

/// The answer to anything that names no stored image.
pub open spec fn not_found_model() -> ResponseModel {
    ResponseModel {
        status_code: 404,
        headers: seq![("Content-Type"@, "text/plain"@)],
        body: not_found_body(),
    }
}

/// The answer to a request whose validator matches the stored image.
pub open spec fn not_modified_model(etag: Seq<char>) -> ResponseModel {
    ResponseModel {
        status_code: 304,
        headers: seq![("ETag"@, etag), ("Cache-Control"@, cache_directive())],
        body: Seq::empty(),
    }
}

/// The answer that carries a stored image.
pub open spec fn ok_model(image: ImageModel, etag: Seq<char>) -> ResponseModel {
    ResponseModel {
        status_code: 200,
        headers: seq![
            ("Content-Type"@, image.content_type),
            ("Cache-Control"@, cache_directive()),
            ("ETag"@, etag),
        ],
        body: image.data,
    }
}

/// The path with one leading `/` removed, if it has one.
pub open spec fn strip_slash(p: Seq<char>) -> Seq<char> {
    if p.len() > 0 && p[0] == '/' {
        p.drop_first()
    } else {
        p
    }
}

/// The only route: `image/`.
pub open spec fn image_prefix() -> Seq<char> {
    "image/"@
}

/// The position of the first `.` in `s`, or its length when there is none.
pub open spec fn first_dot(s: Seq<char>) -> nat
    decreases s.len(),
{
    if s.len() == 0 {
        0
    } else if s[0] == '.' {
        0
    } else {
        1 + first_dot(s.drop_first())
    }
}

/// The identifier that a URL names: after one leading `/` it must start with
/// `image/`, and what follows, up to the first `.`, must parse as a `u64`.
pub open spec fn route_id(url: Seq<char>) -> Option<u64> {
    let p = strip_slash(url);
    if p.len() >= image_prefix().len() && p.take(image_prefix().len() as int) == image_prefix() {
        let rest = p.skip(image_prefix().len() as int);
        parsed_u64(rest.take(first_dot(rest) as int))
    } else {
        None
    }
}

/// The lowercase name of the revalidation header.
pub open spec fn if_none_match() -> Seq<char> {
    "if-none-match"@
}

/// Whether some header is `If-None-Match`, in any case, with exactly `etag`
/// as its value.
pub open spec fn has_validator(headers: HeadersModel, etag: Seq<char>) -> bool {
    exists|i: int|
        0 <= i < headers.len() && lower_of(#[trigger] headers[i].0) == if_none_match() && headers[i].1
            == etag
}

/// The answer to a request for `url` with `headers`, given the stored records.
pub open spec fn response_for(images: Seq<ImageModel>, url: Seq<char>, headers: HeadersModel) -> ResponseModel {
    match route_id(url) {
        None => not_found_model(),
        Some(id) => match lookup(images, id) {
            None => not_found_model(),
            Some(image) => if has_validator(headers, etag_of(id)) {
                not_modified_model(etag_of(id))
            } else {
                ok_model(image, etag_of(id))
            },
        },
    }
}

proof fn lemma_first_dot(s: Seq<char>, i: int)
    requires
        0 <= i <= s.len(),
        forall|j: int| 0 <= j < i ==> s[j] != '.',
        i == s.len() || s[i] == '.',
    ensures
        first_dot(s) == i,
    decreases i,
{
    if i > 0 {
        lemma_first_dot(s.drop_first(), i - 1);
    }
}

/// The path of an image: `/image/`, the identifier in decimal, then `ext`.
pub open spec fn image_path(id: u64, ext: Seq<char>) -> Seq<char> {
    "/"@ + image_prefix() + decimal(id as nat) + ext
}

/// The path of an image, with no suffix or one that starts with `.`, leads
/// back to its identifier.
pub proof fn lemma_route_image_path(id: u64, ext: Seq<char>)
    requires
        ext.len() == 0 || ext[0] == '.',
    ensures
        route_id(image_path(id, ext)) == Some(id),
{
    reveal_strlit("/");
    reveal_strlit("image/");
    let d = decimal(id as nat);
    let url = image_path(id, ext);
    lemma_decimal_value(id as nat);
    lemma_parse_decimal(id);
    let p = strip_slash(url);
    assert(p =~= image_prefix() + d + ext);
    assert(p.take(6) =~= image_prefix());
    let rest = p.skip(6);
    assert(rest =~= d + ext);
    assert forall|j: int| 0 <= j < d.len() implies rest[j] != '.' by {
        assert(rest[j] == d[j]);
        assert(is_digit(d[j]));
    }
    lemma_first_dot(rest, d.len() as int);
    assert(rest.take(d.len() as int) =~= d);
}

/// Fetching an image right after its upload, by its path with or without an
/// extension, answers `200` with its bytes and content type under the entity
/// tag of its identifier, or `304` with no body when the request already
/// holds that tag.
pub proof fn lemma_fetch_after_upload(
    m: StoreModel,
    name: Seq<char>,
    content_type: Seq<char>,
    data: Seq<u8>,
    ext: Seq<char>,
    headers: HeadersModel,
)
    requires
        model_wf(m),
        m.next_id < u64::MAX,
        ext.len() == 0 || ext[0] == '.',
    ensures
        ({
            let (after, id) = upload_model(m, name, content_type, data);
            response_for(after.images, image_path(id, ext), headers) == if has_validator(headers, etag_of(id)) {
                not_modified_model(etag_of(id))
            } else {
                ok_model(ImageModel { id, name, content_type, data }, etag_of(id))
            }
        }),
{
    let id = m.next_id;
    lemma_route_image_path(id, ext);
    lemma_get_after_upload(m, name, content_type, data);
}

/// The identifier that `url` names, if it names one.
pub fn route_image_id(url: &str) -> (r: Option<u64>)
    ensures
        r == route_id(url@),
{
    let n = url.unicode_len();
    let p: &str = if n > 0 && url.get_char(0) == '/' {
        url.substring_char(1, n)
    } else {
        url
    };
    assert(p@ == strip_slash(url@));
    proof {
        reveal_strlit("image/");
    }
    let plen = p.unicode_len();
    if plen < 6 {
        return None;
    }
    if !same_text(p.substring_char(0, 6), "image/") {
        return None;
    }
    let rest = p.substring_char(6, plen);
    let rlen = rest.unicode_len();
    let mut i: usize = 0;
    while i < rlen && rest.get_char(i) != '.'
        invariant
            rlen == rest@.len(),
            0 <= i <= rlen,
            forall|j: int| 0 <= j < i ==> rest@[j] != '.',
        decreases rlen - i,
    {
        i = i + 1;
    }
    proof {
        lemma_first_dot(rest@, i as int);
    }
    parse_u64(rest.substring_char(0, i))
}

/// Whether a header, whose name has already been lowercased, is an
/// `If-None-Match` that carries exactly `etag`.
pub fn is_validator(lowered_name: &str, value: &str, etag: &str) -> (r: bool)
    ensures
        r == (lowered_name@ == if_none_match() && value@ == etag@),
{
    same_text(lowered_name, "if-none-match") && same_text(value, etag)
}

/// Whether the request holds an `If-None-Match` header, in any case, whose
/// value is exactly `etag`.
pub fn has_matching_etag(headers: &Vec<HeaderField>, etag: &str) -> (r: bool)
    ensures
        r == has_validator(headers_model(headers@), etag@),
{
    let n = headers.len();
    let mut i: usize = 0;
    while i < n
        invariant
            n == headers@.len(),
            0 <= i <= n,
            forall|j: int|
                0 <= j < i ==> !(lower_of(#[trigger] headers@[j].0@) == if_none_match() && headers@[j].1@
                    == etag@),
        decreases n - i,
    {
        let lowered = lowercase(headers[i].0.as_str());
        if is_validator(lowered.as_str(), headers[i].1.as_str(), etag) {
            assert(headers_model(headers@)[i as int] == headers@[i as int]@);
            assert(lower_of(headers_model(headers@)[i as int].0) == if_none_match());
            return true;
        }
        i = i + 1;
    }
    proof {
        if has_validator(headers_model(headers@), etag@) {
            let k = choose|k: int|
                0 <= k < headers_model(headers@).len() && lower_of(
                    #[trigger] headers_model(headers@)[k].0,
                ) == if_none_match() && headers_model(headers@)[k].1 == etag@;
            assert(headers_model(headers@)[k] == headers@[k]@);
        }
    }
    false
}

/// A header line from two literal strings.
fn header(name: &str, value: &str) -> (r: HeaderField)
    ensures
        r@ == (name@, value@),
{
    HeaderField(String::from_str(name), String::from_str(value))
}

/// The `404 Not Found` answer, as plain text.
pub fn create_not_found_response() -> (r: HttpResponse)
    ensures
        r@ == not_found_model(),
{
    let headers = vec![header("Content-Type", "text/plain")];
    let body: Vec<u8> = vec![78u8, 111u8, 116u8, 32u8, 70u8, 111u8, 117u8, 110u8, 100u8];
    let r = HttpResponse { status_code: 404, headers, body };
    assert(r@.headers =~= not_found_model().headers);
    assert(r@.body =~= not_found_body());
    r
}

/// The `304 Not Modified` answer for a matching validator.
pub fn not_modified_response(etag: String) -> (r: HttpResponse)
    ensures
        r@ == not_modified_model(etag@),
{
    let headers = vec![
        HeaderField(String::from_str("ETag"), etag),
        header("Cache-Control", "public, max-age=31536000, immutable"),
    ];
    let r = HttpResponse { status_code: 304, headers, body: Vec::new() };
    assert(r@.headers =~= not_modified_model(etag@).headers);
    assert(r@.body =~= Seq::<u8>::empty());
    r
}

/// The `200 OK` answer that carries an image.
pub fn ok_response(image: ImageData, etag: String) -> (r: HttpResponse)
    ensures
        r@ == ok_model(image@, etag@),
{
    let ghost model = image@;
    let headers = vec![
        HeaderField(String::from_str("Content-Type"), image.content_type),
        header("Cache-Control", "public, max-age=31536000, immutable"),
        HeaderField(String::from_str("ETag"), etag),
    ];
    let r = HttpResponse { status_code: 200, headers, body: image.data };
    assert(r@.headers =~= ok_model(model, etag@).headers);
    r
}

impl ImageStore {
    /// Answers a request for `/image/<id>` (any suffix after the first `.`
    /// ignored): the image with cache headers, `304` when the request's
    /// `If-None-Match` equals the entity tag, and `404` for anything else.
    pub fn http_request(&self, request: &HttpRequest) -> (r: HttpResponse)
        requires
            self.wf(),
        ensures
            r@ == response_for(self@.images, request@.url, request@.headers),
    {
        let id = match route_image_id(request.url.as_str()) {
            Some(id) => id,
            None => return create_not_found_response(),
        };
        let image = match self.get_image(id) {
            Some(image) => image,
            None => return create_not_found_response(),
        };
        let etag = quoted_decimal(id);
        if has_matching_etag(&request.headers, etag.as_str()) {
            return not_modified_response(etag);
        }
        ok_response(image, etag)
    }
}

} // verus!
