//! Requests of devices, and what the devices are told.

use crate::text::{
    decimal, decimal_is_injective, decimal_text, find_char, trim, trimmed_end, trimmed_start,
    Margin,
};
use vstd::prelude::*;
use vstd::string::{StrSliceExecFns, StringExecFns};

verus! {

/// What a device says of itself, and how it reached the server.
#[derive(Debug)]
pub struct Request {
    /// The MAC address of the device.
    pub mac: String,
    /// The name of the host that the device sent its request to.
    pub host: String,
    /// The value of the header `x-forwarded-proto`, if there is one.
    pub forwarded_proto: Option<Vec<u8>>,
    /// How full the battery is, in percent.
    pub battery: u8,
}

// ------------------------------------------------------------------ protocol

/// Whether all bytes are printable ASCII characters or tabs.
pub open spec fn is_visible(bytes: Seq<u8>) -> bool {
    forall|i: int| 0 <= i < bytes.len() ==> 32 <= #[trigger] bytes[i] < 127 || bytes[i] == 9
}

/// Bytes as the characters with these numbers.
pub open spec fn as_chars(bytes: Seq<u8>) -> Seq<char> {
    bytes.map_values(|b: u8| b as char)
}

/// `axum::http::HeaderValue::to_str` of a header with these bytes: the text, where
/// all bytes are printable ASCII characters or tabs. Bytes that no header can hold
/// have no text either.
#[verifier::external_body]
fn header_text(bytes: &[u8]) -> (r: Option<String>)
    ensures
        (r is Some) == is_visible(bytes@),
        r matches Some(text) ==> text@ == as_chars(bytes@),
{
    let value = axum::http::HeaderValue::from_bytes(bytes).ok()?;
    value.to_str().ok().map(|text| text.to_owned())
}

/// What comes before the first comma.
pub open spec fn before_comma(s: Seq<char>) -> Seq<char> {
    match s.index_of_first(',') {
        Some(i) => s.take(i),
        None => s,
    }
}

/// The protocol that the first of a list of proxies was reached by: the first
/// item of the header, without white space around it. It is `http` where there is
/// no such header, or one that is no text.
pub open spec fn protocol_of(header: Option<Vec<u8>>) -> Seq<char> {
    match header {
        Some(bytes) => if is_visible(bytes@) {
            trimmed_end(
                trimmed_start(before_comma(as_chars(bytes@)), Margin::WhiteSpace),
                Margin::WhiteSpace,
            )
        } else {
            "http"@
        },
        None => "http"@,
    }
}

/// The protocol that a device reached the server by.
pub fn forwarded_proto(header: &Option<Vec<u8>>) -> (r: String)
    ensures
        r@ == protocol_of(*header),
{
    match header {
        Some(bytes) => match header_text(bytes.as_slice()) {
            Some(text) => {
                let text = text.as_str();
                let first = match find_char(text, ',') {
                    Some(i) => {
                        let first = text.substring_char(0, i);
                        assert(first@ =~= text@.take(i as int));
                        first
                    },
                    None => text,
                };
                trim(first, Margin::WhiteSpace).to_owned()
            },
            None => "http".to_owned(),
        },
        None => "http".to_owned(),
    }
}

// ---------------------------------------------------------------------- URLs

/// The name of an image with a number.
pub open spec fn file_name(number: u64) -> Seq<char> {
    decimal(number as nat) + ".png"@
}

/// The URL of an image with a number.
pub open spec fn image_url_of(
    protocol: Seq<char>,
    host: Seq<char>,
    path: Seq<char>,
    mac: Seq<char>,
    number: u64,
) -> Seq<char> {
    protocol + "://"@ + host + "/"@ + path + "/"@ + mac + "/"@ + file_name(number)
}

/// The name of an image with a number.
pub fn file_name_text(number: u64) -> (r: String)
    ensures
        r@ == file_name(number),
{
    decimal_text(number).concat(".png")
}

/// The URL of an image with a number.
pub fn image_url_text(protocol: &str, host: &str, path: &str, mac: &str, number: u64) -> (r: String)
    ensures
        r@ == image_url_of(protocol@, host@, path@, mac@, number),
{
    protocol.to_owned().concat("://").concat(host).concat("/").concat(path).concat("/").concat(
        mac,
    ).concat("/").concat(file_name_text(number).as_str())
}

/// The URL of an image ends in the name of the image, after a solidus.
pub proof fn url_ends_in_file_name(
    protocol: Seq<char>,
    host: Seq<char>,
    path: Seq<char>,
    mac: Seq<char>,
    number: u64,
)
    ensures
        ({
            let url = image_url_of(protocol, host, path, mac, number);
            let name = "/"@ + file_name(number);
            url.len() >= name.len() && url.skip(url.len() - name.len()) == name
        }),
{
    let before = protocol + "://"@ + host + "/"@ + path + "/"@ + mac;
    let url = image_url_of(protocol, host, path, mac, number);
    let name = "/"@ + file_name(number);
    assert(url =~= before + name);
    assert(url.skip(before.len() as int) =~= name);
}

/// Images have the same name if and only if they have the same number, so a
/// device can tell by the name whether the image is a new one.
pub proof fn file_names_tell_numbers(a: u64, b: u64)
    ensures
        file_name(a) == file_name(b) <==> a == b,
{
    if file_name(a) == file_name(b) {
        let n = ".png"@.len() as int;
        let name = file_name(a);
        assert(decimal(a as nat) =~= name.take(name.len() - n));
        assert(decimal(b as nat) =~= name.take(name.len() - n));
        decimal_is_injective(a as nat, b as nat);
    }
}

// ------------------------------------------------------------------- replies

/// Where a device finds its next image, and when to ask again.
#[derive(Debug)]
pub struct DisplayReply {
    pub image_url: String,
    pub filename: String,
    /// Seconds until the device asks again.
    pub refresh_rate: u32,
}

/// What a `DisplayReply` says.
#[verifier::ext_equal]
pub struct DisplayReplyView {
    pub image_url: Seq<char>,
    pub filename: Seq<char>,
    pub refresh_rate: u32,
}

impl View for DisplayReply {
    type V = DisplayReplyView;

    open spec fn view(&self) -> DisplayReplyView {
        DisplayReplyView {
            image_url: self.image_url@,
            filename: self.filename@,
            refresh_rate: self.refresh_rate,
        }
    }
}

/// The reply to a request that points to an image under a path.
pub open spec fn reply_with(
    request: Request,
    path: Seq<char>,
    number: u64,
    refresh_rate: u32,
) -> DisplayReplyView {
    DisplayReplyView {
        image_url: image_url_of(
            protocol_of(request.forwarded_proto),
            request.host@,
            path,
            request.mac@,
            number,
        ),
        filename: file_name(number),
        refresh_rate,
    }
}

/// Makes the reply to a request that points to an image under a path.
pub fn display_reply(request: &Request, path: &str, number: u64, refresh_rate: u32) -> (r:
    DisplayReply)
    ensures
        r@ == reply_with(*request, path@, number, refresh_rate),
{
    let protocol = forwarded_proto(&request.forwarded_proto);
    DisplayReply {
        image_url: image_url_text(
            protocol.as_str(),
            request.host.as_str(),
            path,
            request.mac.as_str(),
            number,
        ),
        filename: file_name_text(number),
        refresh_rate,
    }
}

/// What a device is told when it is set up.
#[derive(Debug)]
pub struct SetupReply {
    pub friendly_id: String,
    pub image_url: String,
    pub message: String,
}

/// What a `SetupReply` says.
#[verifier::ext_equal]
pub struct SetupReplyView {
    pub friendly_id: Seq<char>,
    pub image_url: Seq<char>,
    pub message: Seq<char>,
}

impl View for SetupReply {
    type V = SetupReplyView;

    open spec fn view(&self) -> SetupReplyView {
        SetupReplyView {
            friendly_id: self.friendly_id@,
            image_url: self.image_url@,
            message: self.message@,
        }
    }
}

}
