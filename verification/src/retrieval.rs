use crate::catalog::{after_inserts, lemma_readers_see_whole_records, Catalog, CatalogView};
use crate::error::ShareError;
use crate::record::{FileMetadata, FileMetadataView};
use crate::text::chars_of;
use vstd::prelude::*;

verus! {

/// The status of a response that carries what was asked for.
pub const STATUS_OK: u16 = 200;

/// The status of every other response.
pub const STATUS_NOT_FOUND: u16 = 404;

/// The method of a request, as far as the service tells methods apart.
#[derive(Clone, Copy, Debug, PartialEq, Eq, Structural)]
pub enum Method {
    Get,
    Other,
}

/// A request as the service reads it.
#[derive(Debug)]
pub struct Request {
    pub method: Method,
    pub path: String,
}

/// What a successful response carries.
#[derive(Debug)]
pub enum Payload {
    /// The encrypted payload of a record, as raw bytes.
    Ciphertext(Vec<u8>),
    /// A whole record, to be sent as a JSON object of its three fields.
    Metadata(FileMetadata),
}

/// The mathematical value of a [`Payload`].
pub enum PayloadView {
    Ciphertext(Seq<u8>),
    Metadata(FileMetadataView),
}

impl View for Payload {
    type V = PayloadView;

    open spec fn view(&self) -> PayloadView {
        match self {
            Payload::Ciphertext(bytes) => PayloadView::Ciphertext(bytes@),
            Payload::Metadata(record) => PayloadView::Metadata(record@),
        }
    }
}

/// A response as the service hands it to the transport. A response without
/// a payload has an empty body.
#[derive(Debug)]
pub struct Response {
    pub status: u16,
    pub body: Option<Payload>,
}

/// The mathematical value of a [`Response`].
pub struct ResponseView {
    pub status: u16,
    pub body: Option<PayloadView>,
}

impl View for Response {
    type V = ResponseView;

    open spec fn view(&self) -> ResponseView {
        ResponseView {
            status: self.status,
            body: match self.body {
                Some(payload) => Some(payload@),
                None => None,
            },
        }
    }
}

/// The path under which the latest record is served.
pub open spec fn latest_path() -> Seq<char> {
    "/file/latest"@
}

/// What every path that names a record begins with.
pub open spec fn file_prefix() -> Seq<char> {
    "/file/"@
}

/// The path under which the record stored as `identifier` is served.
pub open spec fn record_path(identifier: Seq<char>) -> Seq<char> {
    file_prefix() + identifier
}

/// What a request asks for. A `GET` of the latest path asks for the latest
/// record as a whole; a `GET` of any other path behind the file prefix asks
/// for the payload stored under the rest of the path. Nothing else is served.
pub open spec fn requested(catalog: CatalogView, method: Method, path: Seq<char>) -> Result<
    PayloadView,
    ShareError,
> {
    if method != Method::Get {
        Err(ShareError::NotFound)
    } else if path == latest_path() {
        match catalog.get_latest() {
            Some(record) => Ok(PayloadView::Metadata(record)),
            None => Err(ShareError::NotFound),
        }
    } else if file_prefix().is_prefix_of(path) {
        match catalog.get(path.skip(file_prefix().len() as int)) {
            Some(record) => Ok(PayloadView::Ciphertext(record.encrypted_content)),
            None => Err(ShareError::NotFound),
        }
    } else {
        Err(ShareError::NotFound)
    }
}

/// The response that carries `payload`.
pub open spec fn found(payload: PayloadView) -> ResponseView {
    ResponseView { status: STATUS_OK, body: Some(payload) }
}

/// The response to whatever cannot be served.
pub open spec fn not_found() -> ResponseView {
    ResponseView { status: STATUS_NOT_FOUND, body: None }
}

/// The response to a request: what it asks for, or `not_found`.
pub open spec fn respond(catalog: CatalogView, method: Method, path: Seq<char>) -> ResponseView {
    match requested(catalog, method, path) {
        Ok(payload) => found(payload),
        Err(_) => not_found(),
    }
}

/// The one identifier that cannot be fetched by its own path: its path is
/// the latest path.
pub open spec fn reserved_identifier() -> Seq<char> {
    "latest"@
}

/// The path of an identifier is the latest path for the reserved identifier
/// only, and the identifier is what stands behind the prefix.
pub proof fn lemma_record_path(identifier: Seq<char>)
    ensures
        file_prefix().is_prefix_of(record_path(identifier)),
        record_path(identifier).skip(file_prefix().len() as int) == identifier,
        record_path(identifier) == latest_path() <==> identifier == reserved_identifier(),
{
    reveal_strlit("/file/");
    reveal_strlit("/file/latest");
    reveal_strlit("latest");
    let path = record_path(identifier);
    if identifier == reserved_identifier() {
        assert(path =~= latest_path());
    }
    if path == latest_path() {
        assert(latest_path().skip(6) =~= reserved_identifier());
    }
}

/// A record that is stored is served under its identifier: the response has
/// status 200 and its body is the record's payload.
pub proof fn lemma_stored_is_served(
    catalog: CatalogView,
    identifier: Seq<char>,
    record: FileMetadataView,
)
    requires
        catalog.get(identifier) == Some(record),
        identifier != reserved_identifier(),
    ensures
        respond(catalog, Method::Get, record_path(identifier)) == found(
            PayloadView::Ciphertext(record.encrypted_content),
        ),
{
    lemma_record_path(identifier);
}

/// After a record was inserted, a `GET` of its path returns status 200 and
/// exactly the inserted payload.
pub proof fn lemma_insert_then_fetch(
    catalog: CatalogView,
    identifier: Seq<char>,
    record: FileMetadataView,
)
    requires
        identifier != reserved_identifier(),
    ensures
        respond(catalog.insert(identifier, record), Method::Get, record_path(identifier)) == found(
            PayloadView::Ciphertext(record.encrypted_content),
        ),
{
    lemma_stored_is_served(catalog.insert(identifier, record), identifier, record);
}

/// A `GET` for an identifier under which nothing is stored is answered with
/// status 404.
pub proof fn lemma_unknown_is_not_found(catalog: CatalogView, identifier: Seq<char>)
    requires
        catalog.get(identifier) is None,
        identifier != reserved_identifier(),
    ensures
        respond(catalog, Method::Get, record_path(identifier)) == not_found(),
{
    lemma_record_path(identifier);
}

/// However a catalog was filled, a `GET` for an identifier that was never
/// inserted is answered with status 404.
pub proof fn lemma_never_inserted_is_not_found(
    inserts: Seq<(Seq<char>, FileMetadataView)>,
    identifier: Seq<char>,
)
    requires
        forall|k: int| 0 <= k < inserts.len() ==> (#[trigger] inserts[k]).0 != identifier,
        identifier != reserved_identifier(),
    ensures
        respond(after_inserts(inserts), Method::Get, record_path(identifier)) == not_found(),
{
    lemma_readers_see_whole_records(inserts, identifier);
    lemma_unknown_is_not_found(after_inserts(inserts), identifier);
}

/// However a catalog was filled, a `GET` of the latest path is answered
/// with the record of the last insert, and with status 404 where there was
/// no insert.
pub proof fn lemma_latest_after_inserts(inserts: Seq<(Seq<char>, FileMetadataView)>)
    ensures
        respond(after_inserts(inserts), Method::Get, latest_path()) == if inserts.len() == 0 {
            not_found()
        } else {
            found(PayloadView::Metadata(inserts.last().1))
        },
{
}

/// The empty catalog answers every request with status 404, the request
/// for the latest record among them.
pub proof fn lemma_empty_serves_nothing(method: Method, path: Seq<char>)
    ensures
        respond(CatalogView::empty(), method, path) == not_found(),
{
}

/// After an insert, a `GET` of the latest path returns the inserted record.
pub proof fn lemma_latest_is_last_insert(
    catalog: CatalogView,
    identifier: Seq<char>,
    record: FileMetadataView,
)
    ensures
        respond(catalog.insert(identifier, record), Method::Get, latest_path()) == found(
            PayloadView::Metadata(record),
        ),
{
}

/// Of records inserted one after another, the latest path serves the second
/// after the second insert and the third after the third.
pub proof fn lemma_latest_follows_inserts(
    catalog: CatalogView,
    first: (Seq<char>, FileMetadataView),
    second: (Seq<char>, FileMetadataView),
    third: (Seq<char>, FileMetadataView),
)
    ensures
        respond(
            catalog.insert(first.0, first.1).insert(second.0, second.1),
            Method::Get,
            latest_path(),
        ) == found(PayloadView::Metadata(second.1)),
        respond(
            catalog.insert(first.0, first.1).insert(second.0, second.1).insert(third.0, third.1),
            Method::Get,
            latest_path(),
        ) == found(PayloadView::Metadata(third.1)),
{
}

/// A request with another method than `GET` is answered with status 404,
/// whatever its path.
pub proof fn lemma_other_methods_not_found(catalog: CatalogView, path: Seq<char>)
    ensures
        respond(catalog, Method::Other, path) == not_found(),
{
}

/// A path that does not begin with the file prefix is answered with status
/// 404.
pub proof fn lemma_other_paths_not_found(catalog: CatalogView, method: Method, path: Seq<char>)
    requires
        !file_prefix().is_prefix_of(path),
    ensures
        respond(catalog, method, path) == not_found(),
{
    reveal_strlit("/file/");
    reveal_strlit("/file/latest");
    if path == latest_path() {
        assert(path.subrange(0, 6) =~= file_prefix());
    }
}

/// Whether `chars` begins with the file prefix.
fn has_file_prefix(chars: &Vec<char>) -> (yes: bool)
    ensures
        yes == file_prefix().is_prefix_of(chars@),
        file_prefix().len() == 6,
{
    proof {
        reveal_strlit("/file/");
    }
    let yes = chars.len() >= 6 && chars[0] == '/' && chars[1] == 'f' && chars[2] == 'i'
        && chars[3] == 'l' && chars[4] == 'e' && chars[5] == '/';
    proof {
        if !yes && chars.len() >= 6 {
            let head = chars@.subrange(0, 6);
            assert(head[0] == chars[0] && head[1] == chars[1] && head[2] == chars[2] && head[3]
                == chars[3] && head[4] == chars[4] && head[5] == chars[5]);
        }
    }
    yes
}

/// Finds what a request asks for in the catalog.
pub fn retrieve(request: &Request, state: &Catalog) -> (outcome: Result<Payload, ShareError>)
    ensures
        match outcome {
            Ok(payload) => requested(state@, request.method, request.path@) == Ok::<
                PayloadView,
                ShareError,
            >(payload@),
            Err(error) => requested(state@, request.method, request.path@) == Err::<
                PayloadView,
                ShareError,
            >(error),
        },
{
    match request.method {
        Method::Get => {},
        Method::Other => {
            return Err(ShareError::NotFound);
        },
    }
    let latest = "/file/latest".to_owned();
    if request.path == latest {
        return match state.get_latest() {
            Some(record) => Ok(Payload::Metadata(record.clone())),
            None => Err(ShareError::NotFound),
        };
    }
    let path = request.path.as_str();
    let chars = chars_of(path);
    if !has_file_prefix(&chars) {
        return Err(ShareError::NotFound);
    }
    let identifier = path.substring_char(6, chars.len());
    match state.get(identifier) {
        Some(record) => Ok(Payload::Ciphertext(record.encrypted_content.clone())),
        None => Err(ShareError::NotFound),
    }
}

/// Answers one request from the catalog: with status 200 and the payload
/// where the request asks for something that is stored, and with status 404
/// and an empty body otherwise.
pub fn handle_request(request: &Request, state: &Catalog) -> (response: Response)
    ensures
        response@ == respond(state@, request.method, request.path@),
{
    match retrieve(request, state) {
        Ok(payload) => Response { status: STATUS_OK, body: Some(payload) },
        Err(_) => Response { status: STATUS_NOT_FOUND, body: None },
    }
}

} // verus!
