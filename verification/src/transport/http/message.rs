//! The bytes of the messages that the server sends: answers to requests,
//! and the events that it pushes.

use vstd::prelude::*;
use vstd::string::*;
use crate::bytes::extend;
use crate::text::{decimal_digits, to_decimal};

verus! {

/// The content type of the accessory database and of the characteristics.
pub const HAP_JSON: &'static str = "application/hap+json";

/// The content type of the pairing messages.
pub const PAIRING_TLV8: &'static str = "application/pairing+tlv8";

/// The reason phrase of a status code.
pub open spec fn reason_of(status: u16) -> Seq<char> {
    if status == 200 {
        "OK"@
    } else if status == 204 {
        "No Content"@
    } else if status == 207 {
        "Multi-Status"@
    } else if status == 400 {
        "Bad Request"@
    } else if status == 404 {
        "Not Found"@
    } else if status == 470 {
        "Connection Authorization Required"@
    } else if status == 500 {
        "Internal Server Error"@
    } else {
        "Unknown"@
    }
}

/// The reason phrase of a status code.
pub fn reason(status: u16) -> (phrase: &'static str)
    ensures
        phrase@ == reason_of(status),
{
    if status == 200 {
        "OK"
    } else if status == 204 {
        "No Content"
    } else if status == 207 {
        "Multi-Status"
    } else if status == 400 {
        "Bad Request"
    } else if status == 404 {
        "Not Found"
    } else if status == 470 {
        "Connection Authorization Required"
    } else if status == 500 {
        "Internal Server Error"
    } else {
        "Unknown"
    }
}

/// The bytes of a text.
pub open spec fn bytes_of(text: Seq<char>) -> Seq<u8> {
    vstd::utf8::encode_utf8(text)
}

/// The head of a message: the status line under the given protocol, the
/// content type and the content length where the message has a body, and the
/// empty line that ends the head.
pub open spec fn head_of(protocol: Seq<char>, status: u16, content: Option<(Seq<char>, nat)>) -> Seq<
    u8,
> {
    let status_line = bytes_of(protocol) + bytes_of(" "@) + bytes_of(
        decimal_digits(status as nat),
    ) + bytes_of(" "@) + bytes_of(reason_of(status)) + bytes_of("\r\n"@);
    match content {
        Some((content_type, length)) => status_line + bytes_of("Content-Type: "@) + bytes_of(
            content_type,
        ) + bytes_of("\r\nContent-Length: "@) + bytes_of(decimal_digits(length)) + bytes_of(
            "\r\n\r\n"@,
        ),
        None => status_line + bytes_of("\r\n"@),
    }
}

/// The bytes of a message: its head and its body.
pub open spec fn message_of(
    protocol: Seq<char>,
    status: u16,
    content: Option<(Seq<char>, Seq<u8>)>,
) -> Seq<u8> {
    match content {
        Some((content_type, body)) => head_of(protocol, status, Some((content_type, body.len())))
            + body,
        None => head_of(protocol, status, None),
    }
}

/// The bytes of a message under the given protocol.
pub fn message(protocol: &str, status: u16, content: Option<(&str, &[u8])>) -> (bytes: Vec<u8>)
    ensures
        bytes@ == message_of(
            protocol@,
            status,
            match content {
                Some((content_type, body)) => Some((content_type@, body@)),
                None => None,
            },
        ),
{
    let mut bytes: Vec<u8> = Vec::new();
    extend(&mut bytes, protocol.as_bytes());
    extend(&mut bytes, " ".as_bytes());
    let code = to_decimal(status as u64);
    extend(&mut bytes, code.as_str().as_bytes());
    extend(&mut bytes, " ".as_bytes());
    extend(&mut bytes, reason(status).as_bytes());
    extend(&mut bytes, "\r\n".as_bytes());
    match content {
        Some((content_type, body)) => {
            extend(&mut bytes, "Content-Type: ".as_bytes());
            extend(&mut bytes, content_type.as_bytes());
            extend(&mut bytes, "\r\nContent-Length: ".as_bytes());
            let length = to_decimal(body.len() as u64);
            extend(&mut bytes, length.as_str().as_bytes());
            extend(&mut bytes, "\r\n\r\n".as_bytes());
            extend(&mut bytes, body);
        },
        None => {
            extend(&mut bytes, "\r\n".as_bytes());
        },
    }
    bytes
}

/// The bytes of the answer to a request.
pub fn response(status: u16, content: Option<(&str, &[u8])>) -> (bytes: Vec<u8>)
    ensures
        bytes@ == message_of(
            "HTTP/1.1"@,
            status,
            match content {
                Some((content_type, body)) => Some((content_type@, body@)),
                None => None,
            },
        ),
{
    message("HTTP/1.1", status, content)
}

/// The bytes of an event that is pushed to a session, outside any request:
/// a message with the status line `EVENT/1.0 200 OK` and the given JSON
/// body.
pub fn event(body: &[u8]) -> (bytes: Vec<u8>)
    ensures
        bytes@ == message_of("EVENT/1.0"@, 200, Some((HAP_JSON@, body@))),
{
    message("EVENT/1.0", 200, Some((HAP_JSON, body)))
}

} // verus!
