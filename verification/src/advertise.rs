use crate::error::ShareError;
use crate::retrieval::record_path;
use crate::text::{decimal, decimal_text};
use vstd::prelude::*;

verus! {

/// The port on which the service listens unless told otherwise.
pub const DEFAULT_PORT: u16 = 3000;

/// The rendering of `text` as a QR code in half-block characters, two rows
/// of modules to a line, where a QR code can hold the text.
pub uninterp spec fn qr_rendering(text: Seq<char>) -> Option<Seq<char>>;

/// The address at which a receiver that reaches this host as `host` fetches
/// the record stored under `identifier`.
pub open spec fn url_of(host: Seq<char>, port: u16, identifier: Seq<char>) -> Seq<char> {
    "http://"@ + host + ":"@ + decimal(port as nat) + record_path(identifier)
}

/// What the operator hands to the receiver.
#[derive(Debug)]
pub struct Advertisement {
    /// The address of the shared record.
    pub url: String,
    /// The address as a scannable code, where one can hold it.
    pub code: Option<String>,
}

/// Calls `qrcode::QrCode::new`, which builds the smallest code that holds
/// the text at the medium error correction level, and renders the code with
/// `qrcode::render::unicode::Dense1x2`. Trusted: the outcome depends on the
/// text alone. Nothing is rendered where `new` reports that no code can be
/// built.
#[verifier::external_body]
fn render_code(text: &str) -> (code: Option<String>)
    ensures
        match code {
            Some(rendered) => qr_rendering(text@) == Some(rendered@),
            None => qr_rendering(text@) is None,
        },
{
    match qrcode::QrCode::new(text) {
        Ok(code) => Some(code.render::<qrcode::render::unicode::Dense1x2>().build()),
        Err(_) => None,
    }
}

/// Writes the address of the record stored under `identifier`.
pub fn connection_url(host: &str, port: u16, identifier: &str) -> (url: String)
    ensures
        url@ == url_of(host@, port, identifier@),
{
    let mut url = "http://".to_owned();
    url.append(host);
    url.append(":");
    url.append(decimal_text(port).as_str());
    url.append("/file/");
    url.append(identifier);
    url
}

/// Prepares what advertises the record stored under `identifier`: its
/// address on `host`, and that address as a scannable code. `host` is the
/// address of this host as receivers reach it, or nothing where none could
/// be determined; then nothing can be advertised.
pub fn advertise(host: Option<&str>, port: u16, identifier: &str) -> (outcome: Result<
    Advertisement,
    ShareError,
>)
    ensures
        match host {
            Some(address) => {
                &&& outcome matches Ok(advertisement)
                &&& advertisement.url@ == url_of(address@, port, identifier@)
                &&& match advertisement.code {
                    Some(rendered) => qr_rendering(advertisement.url@) == Some(rendered@),
                    None => qr_rendering(advertisement.url@) is None,
                }
            },
            None => outcome matches Err(ShareError::AddressResolution),
        },
{
    match host {
        Some(address) => {
            let url = connection_url(address, port, identifier);
            let code = render_code(url.as_str());
            Ok(Advertisement { url, code })
        },
        None => Err(ShareError::AddressResolution),
    }
}

} // verus!
