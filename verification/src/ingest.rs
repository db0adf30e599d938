use crate::catalog::{Catalog, CatalogView};
use crate::encryption::{ciphertext_of, encrypted_content, ToolOutcome};
use crate::error::ShareError;
use crate::fingerprint::{fingerprint, generate_file_hash};
use crate::naming::{extension_of, name_parts, original_name_of};
use crate::record::{FileMetadata, FileMetadataView};
use crate::retrieval::{
    found, lemma_insert_then_fetch, record_path, reserved_identifier, respond, Method, PayloadView,
};
use vstd::prelude::*;

verus! {

/// The record that ingestion assembles for the file at `file_path` once its
/// ciphertext is there.
pub open spec fn record_for(file_path: Seq<char>, ciphertext: Seq<u8>) -> FileMetadataView {
    FileMetadataView {
        original_name: original_name_of(file_path),
        extension: extension_of(file_path),
        encrypted_content: ciphertext,
    }
}

/// What one ingestion comes to: the identifier and the ciphertext of the
/// file, or the error of the first step that failed. Reading the source
/// comes before encrypting it.
pub open spec fn ingestion(source: Option<Vec<u8>>, encryption: ToolOutcome) -> Result<
    (Seq<char>, Seq<u8>),
    ShareError,
> {
    match source {
        None => Err(ShareError::Io),
        Some(contents) => match ciphertext_of(encryption) {
            Ok(ciphertext) => Ok((fingerprint(contents@), ciphertext)),
            Err(error) => Err(error),
        },
    }
}

/// The catalog after an ingestion of the file at `file_path`: with the
/// file's record under its identifier where every step succeeded, and as it
/// was before where one failed.
pub open spec fn ingested(
    catalog: CatalogView,
    file_path: Seq<char>,
    source: Option<Vec<u8>>,
    encryption: ToolOutcome,
) -> CatalogView {
    match ingestion(source, encryption) {
        Ok((identifier, ciphertext)) => catalog.insert(
            identifier,
            record_for(file_path, ciphertext),
        ),
        Err(_) => catalog,
    }
}

/// Where the source cannot be read or its encryption does not finish,
/// ingestion fails and the catalog holds afterwards what it held before.
pub proof fn lemma_failure_stores_nothing(
    catalog: CatalogView,
    file_path: Seq<char>,
    source: Option<Vec<u8>>,
    encryption: ToolOutcome,
)
    requires
        source is None || !(encryption is Finished),
    ensures
        ingestion(source, encryption) is Err,
        ingested(catalog, file_path, source, encryption) == catalog,
{
}

/// After an ingestion that succeeded, a `GET` of the path of the identifier
/// it gave is answered with status 200 and exactly the ciphertext that the
/// encryption left.
pub proof fn lemma_ingested_is_served(
    catalog: CatalogView,
    file_path: Seq<char>,
    source: Option<Vec<u8>>,
    encryption: ToolOutcome,
)
    requires
        ingestion(source, encryption) is Ok,
        ingestion(source, encryption)->Ok_0.0 != reserved_identifier(),
    ensures
        encryption is Finished,
        respond(
            ingested(catalog, file_path, source, encryption),
            Method::Get,
            record_path(ingestion(source, encryption)->Ok_0.0),
        ) == found(PayloadView::Ciphertext(encryption->Finished_0@)),
{
    let (identifier, ciphertext) = ingestion(source, encryption)->Ok_0;
    lemma_insert_then_fetch(catalog, identifier, record_for(file_path, ciphertext));
}

/// Stores one source file in the catalog and returns the identifier to
/// advertise. `source` holds the bytes of the file at `file_path`, or nothing
/// where the file could not be opened or read; `encryption` says how
/// encrypting that file ended. Where a step failed, its error is returned
/// and the catalog stays as it was.
pub fn load_and_store_file(
    state: &mut Catalog,
    file_path: &str,
    source: Option<Vec<u8>>,
    encryption: ToolOutcome,
) -> (outcome: Result<String, ShareError>)
    ensures
        final(state)@ == ingested(old(state)@, file_path@, source, encryption),
        match outcome {
            Ok(identifier) => {
                &&& ingestion(source, encryption) matches Ok((expected, ciphertext))
                &&& identifier@ == expected
                &&& respond(final(state)@, Method::Get, record_path(identifier@)) == found(
                    PayloadView::Ciphertext(ciphertext),
                )
            },
            Err(error) => ingestion(source, encryption) == Err::<(Seq<char>, Seq<u8>), ShareError>(
                error,
            ),
        },
{
    let contents = match source {
        Some(contents) => contents,
        None => {
            return Err(ShareError::Io);
        },
    };
    let encrypted_content = match encrypted_content(encryption) {
        Ok(encrypted_content) => encrypted_content,
        Err(error) => {
            return Err(error);
        },
    };
    let file_hash = generate_file_hash(contents.as_slice());
    let (original_name, extension) = name_parts(file_path);
    let metadata = FileMetadata { original_name, extension, encrypted_content };
    proof {
        reveal_strlit("latest");
        lemma_insert_then_fetch(state@, file_hash@, metadata@);
    }
    state.insert(file_hash.clone(), metadata);
    Ok(file_hash)
}

} // verus!
