//! The closed error taxonomy of the client, and the total classification
//! of transport failures into it.

use vstd::prelude::*;
use crate::bytes::{dec_of, push_bytes, u64_to_dec};
use crate::render::{reason_of, reason_phrase};

verus! {

/// The class of an I/O failure, mirroring the stable kinds the
/// operating system reports; anything newer falls to `Other`.
#[derive(Debug, Clone, Copy, PartialEq, Eq)]
pub enum IoErrorClass {
    NotFound,
    PermissionDenied,
    ConnectionRefused,
    ConnectionReset,
    ConnectionAborted,
    NotConnected,
    AddrInUse,
    AddrNotAvailable,
    BrokenPipe,
    AlreadyExists,
    WouldBlock,
    InvalidInput,
    InvalidData,
    TimedOut,
    WriteZero,
    Interrupted,
    Unsupported,
    UnexpectedEof,
    OutOfMemory,
    Other,
}

/// The shape of a JSON serialization failure.
#[derive(Debug, Clone, Copy, PartialEq, Eq)]
pub enum JsonErrorCategory {
    Io,
    Syntax,
    Data,
    Eof,
}

/// Every failure the client can surface; all variants are terminal and
/// mutually exclusive.
#[derive(Debug, PartialEq, Eq)]
pub enum Error {
    /// A raw parameter token held no recognized separator; carries the token.
    ParameterMissingSeparator(Vec<u8>),
    /// Neither a target URL nor a named command was supplied.
    MissingUrlAndCommand,
    /// A file-attaching form field was used while form mode was off.
    NotFormButHasFormFile,
    /// The request or response body could not be (de)serialized in transit.
    ClientSerialization,
    /// The deadline passed while awaiting the network call.
    ClientTimeout,
    /// The transport itself reported an HTTP error status; carries the code.
    ClientWithStatus(u16),
    /// Any other transport failure.
    ClientOther,
    /// A structural failure while writing JSON during rendering.
    SerdeJson(JsonErrorCategory),
    /// A file read or write failed; carries the OS error class.
    IO(IoErrorClass),
    /// A malformed URL; carries the parser's message.
    UrlParseError(Vec<u8>),
    /// A highlighting syntax definition was missing; carries its name.
    SyntaxLoadError(Vec<u8>),
}

/// How a transport failure is classified, in priority order: a decode or
/// serialization failure first, then a timeout, then a carried HTTP status,
/// then the generic case.
pub open spec fn spec_classify_client(is_decode: bool, is_timeout: bool, status: Option<
    u16,
>) -> Error {
    if is_decode {
        Error::ClientSerialization
    } else if is_timeout {
        Error::ClientTimeout
    } else if status is Some {
        Error::ClientWithStatus(status->0)
    } else {
        Error::ClientOther
    }
}

/// Maps the observable facts of a transport failure to exactly one error.
pub fn classify_client_error(is_decode: bool, is_timeout: bool, status: Option<u16>) -> (e: Error)
    ensures
        e == spec_classify_client(is_decode, is_timeout, status),
{
    if is_decode {
        Error::ClientSerialization
    } else if is_timeout {
        Error::ClientTimeout
    } else {
        match status {
            Some(code) => Error::ClientWithStatus(code),
            None => Error::ClientOther,
        }
    }
}

/// Checks that an invocation names a command or a URL; rejecting it
/// otherwise, before any network activity.
pub fn validate_invocation(has_cmd: bool, has_url: bool) -> (r: Result<(), Error>)
    ensures
        r is Ok <==> (has_cmd || has_url),
        r is Err ==> r->Err_0 == Error::MissingUrlAndCommand,
{
    if has_cmd || has_url {
        Ok(())
    } else {
        Err(Error::MissingUrlAndCommand)
    }
}

/// The fixed words of each message.
pub open spec fn msg_missing_separator() -> Seq<u8> {
    seq![77u8, 105u8, 115u8, 115u8, 105u8, 110u8, 103u8, 32u8, 115u8, 101u8, 112u8, 97u8, 114u8, 97u8, 116u8, 111u8, 114u8, 32u8, 119u8, 104u8, 101u8, 110u8, 32u8, 112u8, 97u8, 114u8, 115u8, 105u8, 110u8, 103u8, 32u8, 112u8, 97u8, 114u8, 97u8, 109u8, 101u8, 116u8, 101u8, 114u8, 58u8, 32u8]
}

pub open spec fn msg_missing_url_and_command() -> Seq<u8> {
    seq![77u8, 117u8, 115u8, 116u8, 32u8, 115u8, 112u8, 101u8, 99u8, 105u8, 102u8, 121u8, 32u8, 97u8, 32u8, 117u8, 114u8, 108u8, 32u8, 111u8, 114u8, 32u8, 97u8, 32u8, 99u8, 111u8, 109u8, 109u8, 97u8, 110u8, 100u8]
}

pub open spec fn msg_not_form_but_has_form_file() -> Seq<u8> {
    seq![67u8, 97u8, 110u8, 110u8, 111u8, 116u8, 32u8, 104u8, 97u8, 118u8, 101u8, 32u8, 97u8, 32u8, 102u8, 111u8, 114u8, 109u8, 32u8, 102u8, 105u8, 108u8, 101u8, 32u8, 39u8, 107u8, 101u8, 121u8, 64u8, 102u8, 105u8, 108u8, 101u8, 110u8, 97u8, 109u8, 101u8, 39u8, 32u8, 117u8, 110u8, 108u8, 101u8, 115u8, 115u8, 32u8, 45u8, 45u8, 32u8, 102u8, 111u8, 114u8, 109u8, 32u8, 111u8, 112u8, 116u8, 105u8, 111u8, 110u8, 32u8, 105u8, 115u8, 32u8, 115u8, 101u8, 116u8]
}

pub open spec fn msg_client_serialization() -> Seq<u8> {
    seq![83u8, 101u8, 114u8, 105u8, 97u8, 108u8, 105u8, 122u8, 105u8, 110u8, 103u8, 32u8, 116u8, 104u8, 101u8, 32u8, 114u8, 101u8, 113u8, 117u8, 101u8, 115u8, 116u8, 47u8, 114u8, 101u8, 115u8, 112u8, 111u8, 110u8, 115u8, 101u8, 32u8, 102u8, 97u8, 105u8, 108u8, 101u8, 100u8]
}

pub open spec fn msg_client_timeout() -> Seq<u8> {
    seq![84u8, 105u8, 109u8, 101u8, 111u8, 117u8, 116u8, 32u8, 100u8, 117u8, 114u8, 105u8, 110u8, 103u8, 32u8, 114u8, 101u8, 113u8, 117u8, 101u8, 115u8, 116u8]
}

pub open spec fn msg_client_with_status() -> Seq<u8> {
    seq![71u8, 111u8, 116u8, 32u8, 115u8, 116u8, 97u8, 116u8, 117u8, 115u8, 32u8, 99u8, 111u8, 100u8, 101u8, 58u8, 32u8]
}

/// The status Display's fallback for a code outside the table.
pub open spec fn msg_unknown_status() -> Seq<u8> {
    seq![60u8, 117u8, 110u8, 107u8, 110u8, 111u8, 119u8, 110u8, 32u8, 115u8, 116u8, 97u8, 116u8, 117u8, 115u8, 32u8, 99u8, 111u8, 100u8, 101u8, 62u8]
}

pub open spec fn msg_client_other() -> Seq<u8> {
    seq![85u8, 110u8, 107u8, 110u8, 111u8, 119u8, 110u8, 32u8, 99u8, 108u8, 105u8, 101u8, 110u8, 116u8, 32u8, 101u8, 114u8, 114u8, 111u8, 114u8]
}

pub open spec fn msg_serde_json() -> Seq<u8> {
    seq![74u8, 83u8, 79u8, 78u8, 32u8, 101u8, 114u8, 114u8, 111u8, 114u8, 58u8, 32u8]
}

pub open spec fn msg_io() -> Seq<u8> {
    seq![73u8, 79u8, 32u8, 101u8, 114u8, 114u8, 111u8, 114u8, 58u8, 32u8]
}

pub open spec fn msg_url_parse() -> Seq<u8> {
    seq![85u8, 82u8, 76u8, 32u8, 112u8, 97u8, 114u8, 115u8, 105u8, 110u8, 103u8, 32u8, 101u8, 114u8, 114u8, 111u8, 114u8, 58u8, 32u8]
}

pub open spec fn msg_syntax_load() -> Seq<u8> {
    seq![69u8, 114u8, 114u8, 111u8, 114u8, 32u8, 108u8, 111u8, 97u8, 100u8, 105u8, 110u8, 103u8, 32u8, 115u8, 121u8, 110u8, 116u8, 97u8, 120u8, 32u8, 102u8, 111u8, 114u8, 32u8]
}

/// The displayed name of a JSON failure shape.
pub open spec fn json_category_label(c: JsonErrorCategory) -> Seq<u8> {
    match c {
        JsonErrorCategory::Io => seq![73u8, 111u8],
        JsonErrorCategory::Syntax => seq![83u8, 121u8, 110u8, 116u8, 97u8, 120u8],
        JsonErrorCategory::Data => seq![68u8, 97u8, 116u8, 97u8],
        JsonErrorCategory::Eof => seq![69u8, 111u8, 102u8],
    }
}

/// The displayed name of an I/O failure class.
pub open spec fn io_class_label(k: IoErrorClass) -> Seq<u8> {
    match k {
        IoErrorClass::NotFound => seq![78u8, 111u8, 116u8, 70u8, 111u8, 117u8, 110u8, 100u8],
        IoErrorClass::PermissionDenied => seq![80u8, 101u8, 114u8, 109u8, 105u8, 115u8, 115u8, 105u8, 111u8, 110u8, 68u8, 101u8, 110u8, 105u8, 101u8, 100u8],
        IoErrorClass::ConnectionRefused => seq![67u8, 111u8, 110u8, 110u8, 101u8, 99u8, 116u8, 105u8, 111u8, 110u8, 82u8, 101u8, 102u8, 117u8, 115u8, 101u8, 100u8],
        IoErrorClass::ConnectionReset => seq![67u8, 111u8, 110u8, 110u8, 101u8, 99u8, 116u8, 105u8, 111u8, 110u8, 82u8, 101u8, 115u8, 101u8, 116u8],
        IoErrorClass::ConnectionAborted => seq![67u8, 111u8, 110u8, 110u8, 101u8, 99u8, 116u8, 105u8, 111u8, 110u8, 65u8, 98u8, 111u8, 114u8, 116u8, 101u8, 100u8],
        IoErrorClass::NotConnected => seq![78u8, 111u8, 116u8, 67u8, 111u8, 110u8, 110u8, 101u8, 99u8, 116u8, 101u8, 100u8],
        IoErrorClass::AddrInUse => seq![65u8, 100u8, 100u8, 114u8, 73u8, 110u8, 85u8, 115u8, 101u8],
        IoErrorClass::AddrNotAvailable => seq![65u8, 100u8, 100u8, 114u8, 78u8, 111u8, 116u8, 65u8, 118u8, 97u8, 105u8, 108u8, 97u8, 98u8, 108u8, 101u8],
        IoErrorClass::BrokenPipe => seq![66u8, 114u8, 111u8, 107u8, 101u8, 110u8, 80u8, 105u8, 112u8, 101u8],
        IoErrorClass::AlreadyExists => seq![65u8, 108u8, 114u8, 101u8, 97u8, 100u8, 121u8, 69u8, 120u8, 105u8, 115u8, 116u8, 115u8],
        IoErrorClass::WouldBlock => seq![87u8, 111u8, 117u8, 108u8, 100u8, 66u8, 108u8, 111u8, 99u8, 107u8],
        IoErrorClass::InvalidInput => seq![73u8, 110u8, 118u8, 97u8, 108u8, 105u8, 100u8, 73u8, 110u8, 112u8, 117u8, 116u8],
        IoErrorClass::InvalidData => seq![73u8, 110u8, 118u8, 97u8, 108u8, 105u8, 100u8, 68u8, 97u8, 116u8, 97u8],
        IoErrorClass::TimedOut => seq![84u8, 105u8, 109u8, 101u8, 100u8, 79u8, 117u8, 116u8],
        IoErrorClass::WriteZero => seq![87u8, 114u8, 105u8, 116u8, 101u8, 90u8, 101u8, 114u8, 111u8],
        IoErrorClass::Interrupted => seq![73u8, 110u8, 116u8, 101u8, 114u8, 114u8, 117u8, 112u8, 116u8, 101u8, 100u8],
        IoErrorClass::Unsupported => seq![85u8, 110u8, 115u8, 117u8, 112u8, 112u8, 111u8, 114u8, 116u8, 101u8, 100u8],
        IoErrorClass::UnexpectedEof => seq![85u8, 110u8, 101u8, 120u8, 112u8, 101u8, 99u8, 116u8, 101u8, 100u8, 69u8, 111u8, 102u8],
        IoErrorClass::OutOfMemory => seq![79u8, 117u8, 116u8, 79u8, 102u8, 77u8, 101u8, 109u8, 111u8, 114u8, 121u8],
        IoErrorClass::Other => seq![79u8, 116u8, 104u8, 101u8, 114u8],
    }
}

/// The one-line human-readable message of each error: its fixed words,
/// then the carried token, code, class or name.
pub open spec fn spec_message(e: Error) -> Seq<u8> {
    match e {
        Error::ParameterMissingSeparator(s) => msg_missing_separator() + s@,
        Error::MissingUrlAndCommand => msg_missing_url_and_command(),
        Error::NotFormButHasFormFile => msg_not_form_but_has_form_file(),
        Error::ClientSerialization => msg_client_serialization(),
        Error::ClientTimeout => msg_client_timeout(),
        Error::ClientWithStatus(c) => msg_client_with_status() + dec_of(c as nat) + seq![32u8]
            + (match reason_of(c) {
            Some(r) => r,
            None => msg_unknown_status(),
        }),
        Error::ClientOther => msg_client_other(),
        Error::SerdeJson(c) => msg_serde_json() + json_category_label(c),
        Error::IO(k) => msg_io() + io_class_label(k),
        Error::UrlParseError(m) => msg_url_parse() + m@,
        Error::SyntaxLoadError(n) => msg_syntax_load() + n@,
    }
}

fn push_msg_missing_separator(out: &mut Vec<u8>)
    ensures
        final(out)@ == old(out)@ + msg_missing_separator(),
{
    out.push(77u8);
    out.push(105u8);
    out.push(115u8);
    out.push(115u8);
    out.push(105u8);
    out.push(110u8);
    out.push(103u8);
    out.push(32u8);
    out.push(115u8);
    out.push(101u8);
    out.push(112u8);
    out.push(97u8);
    out.push(114u8);
    out.push(97u8);
    out.push(116u8);
    out.push(111u8);
    out.push(114u8);
    out.push(32u8);
    out.push(119u8);
    out.push(104u8);
    out.push(101u8);
    out.push(110u8);
    out.push(32u8);
    out.push(112u8);
    out.push(97u8);
    out.push(114u8);
    out.push(115u8);
    out.push(105u8);
    out.push(110u8);
    out.push(103u8);
    out.push(32u8);
    out.push(112u8);
    out.push(97u8);
    out.push(114u8);
    out.push(97u8);
    out.push(109u8);
    out.push(101u8);
    out.push(116u8);
    out.push(101u8);
    out.push(114u8);
    out.push(58u8);
    out.push(32u8);
    proof {
        assert(out@ =~= old(out)@ + msg_missing_separator());
    }
}

fn push_msg_missing_url_and_command(out: &mut Vec<u8>)
    ensures
        final(out)@ == old(out)@ + msg_missing_url_and_command(),
{
    out.push(77u8);
    out.push(117u8);
    out.push(115u8);
    out.push(116u8);
    out.push(32u8);
    out.push(115u8);
    out.push(112u8);
    out.push(101u8);
    out.push(99u8);
    out.push(105u8);
    out.push(102u8);
    out.push(121u8);
    out.push(32u8);
    out.push(97u8);
    out.push(32u8);
    out.push(117u8);
    out.push(114u8);
    out.push(108u8);
    out.push(32u8);
    out.push(111u8);
    out.push(114u8);
    out.push(32u8);
    out.push(97u8);
    out.push(32u8);
    out.push(99u8);
    out.push(111u8);
    out.push(109u8);
    out.push(109u8);
    out.push(97u8);
    out.push(110u8);
    out.push(100u8);
    proof {
        assert(out@ =~= old(out)@ + msg_missing_url_and_command());
    }
}

fn push_msg_not_form_but_has_form_file(out: &mut Vec<u8>)
    ensures
        final(out)@ == old(out)@ + msg_not_form_but_has_form_file(),
{
    out.push(67u8);
    out.push(97u8);
    out.push(110u8);
    out.push(110u8);
    out.push(111u8);
    out.push(116u8);
    out.push(32u8);
    out.push(104u8);
    out.push(97u8);
    out.push(118u8);
    out.push(101u8);
    out.push(32u8);
    out.push(97u8);
    out.push(32u8);
    out.push(102u8);
    out.push(111u8);
    out.push(114u8);
    out.push(109u8);
    out.push(32u8);
    out.push(102u8);
    out.push(105u8);
    out.push(108u8);
    out.push(101u8);
    out.push(32u8);
    out.push(39u8);
    out.push(107u8);
    out.push(101u8);
    out.push(121u8);
    out.push(64u8);
    out.push(102u8);
    out.push(105u8);
    out.push(108u8);
    out.push(101u8);
    out.push(110u8);
    out.push(97u8);
    out.push(109u8);
    out.push(101u8);
    out.push(39u8);
    out.push(32u8);
    out.push(117u8);
    out.push(110u8);
    out.push(108u8);
    out.push(101u8);
    out.push(115u8);
    out.push(115u8);
    out.push(32u8);
    out.push(45u8);
    out.push(45u8);
    out.push(32u8);
    out.push(102u8);
    out.push(111u8);
    out.push(114u8);
    out.push(109u8);
    out.push(32u8);
    out.push(111u8);
    out.push(112u8);
    out.push(116u8);
    out.push(105u8);
    out.push(111u8);
    out.push(110u8);
    out.push(32u8);
    out.push(105u8);
    out.push(115u8);
    out.push(32u8);
    out.push(115u8);
    out.push(101u8);
    out.push(116u8);
    proof {
        assert(out@ =~= old(out)@ + msg_not_form_but_has_form_file());
    }
}

fn push_msg_client_serialization(out: &mut Vec<u8>)
    ensures
        final(out)@ == old(out)@ + msg_client_serialization(),
{
    out.push(83u8);
    out.push(101u8);
    out.push(114u8);
    out.push(105u8);
    out.push(97u8);
    out.push(108u8);
    out.push(105u8);
    out.push(122u8);
    out.push(105u8);
    out.push(110u8);
    out.push(103u8);
    out.push(32u8);
    out.push(116u8);
    out.push(104u8);
    out.push(101u8);
    out.push(32u8);
    out.push(114u8);
    out.push(101u8);
    out.push(113u8);
    out.push(117u8);
    out.push(101u8);
    out.push(115u8);
    out.push(116u8);
    out.push(47u8);
    out.push(114u8);
    out.push(101u8);
    out.push(115u8);
    out.push(112u8);
    out.push(111u8);
    out.push(110u8);
    out.push(115u8);
    out.push(101u8);
    out.push(32u8);
    out.push(102u8);
    out.push(97u8);
    out.push(105u8);
    out.push(108u8);
    out.push(101u8);
    out.push(100u8);
    proof {
        assert(out@ =~= old(out)@ + msg_client_serialization());
    }
}

fn push_msg_client_timeout(out: &mut Vec<u8>)
    ensures
        final(out)@ == old(out)@ + msg_client_timeout(),
{
    out.push(84u8);
    out.push(105u8);
    out.push(109u8);
    out.push(101u8);
    out.push(111u8);
    out.push(117u8);
    out.push(116u8);
    out.push(32u8);
    out.push(100u8);
    out.push(117u8);
    out.push(114u8);
    out.push(105u8);
    out.push(110u8);
    out.push(103u8);
    out.push(32u8);
    out.push(114u8);
    out.push(101u8);
    out.push(113u8);
    out.push(117u8);
    out.push(101u8);
    out.push(115u8);
    out.push(116u8);
    proof {
        assert(out@ =~= old(out)@ + msg_client_timeout());
    }
}

fn push_msg_client_with_status(out: &mut Vec<u8>)
    ensures
        final(out)@ == old(out)@ + msg_client_with_status(),
{
    out.push(71u8);
    out.push(111u8);
    out.push(116u8);
    out.push(32u8);
    out.push(115u8);
    out.push(116u8);
    out.push(97u8);
    out.push(116u8);
    out.push(117u8);
    out.push(115u8);
    out.push(32u8);
    out.push(99u8);
    out.push(111u8);
    out.push(100u8);
    out.push(101u8);
    out.push(58u8);
    out.push(32u8);
    proof {
        assert(out@ =~= old(out)@ + msg_client_with_status());
    }
}

fn push_msg_client_other(out: &mut Vec<u8>)
    ensures
        final(out)@ == old(out)@ + msg_client_other(),
{
    out.push(85u8);
    out.push(110u8);
    out.push(107u8);
    out.push(110u8);
    out.push(111u8);
    out.push(119u8);
    out.push(110u8);
    out.push(32u8);
    out.push(99u8);
    out.push(108u8);
    out.push(105u8);
    out.push(101u8);
    out.push(110u8);
    out.push(116u8);
    out.push(32u8);
    out.push(101u8);
    out.push(114u8);
    out.push(114u8);
    out.push(111u8);
    out.push(114u8);
    proof {
        assert(out@ =~= old(out)@ + msg_client_other());
    }
}

fn push_msg_serde_json(out: &mut Vec<u8>)
    ensures
        final(out)@ == old(out)@ + msg_serde_json(),
{
    out.push(74u8);
    out.push(83u8);
    out.push(79u8);
    out.push(78u8);
    out.push(32u8);
    out.push(101u8);
    out.push(114u8);
    out.push(114u8);
    out.push(111u8);
    out.push(114u8);
    out.push(58u8);
    out.push(32u8);
    proof {
        assert(out@ =~= old(out)@ + msg_serde_json());
    }
}

fn push_msg_io(out: &mut Vec<u8>)
    ensures
        final(out)@ == old(out)@ + msg_io(),
{
    out.push(73u8);
    out.push(79u8);
    out.push(32u8);
    out.push(101u8);
    out.push(114u8);
    out.push(114u8);
    out.push(111u8);
    out.push(114u8);
    out.push(58u8);
    out.push(32u8);
    proof {
        assert(out@ =~= old(out)@ + msg_io());
    }
}

fn push_msg_url_parse(out: &mut Vec<u8>)
    ensures
        final(out)@ == old(out)@ + msg_url_parse(),
{
    out.push(85u8);
    out.push(82u8);
    out.push(76u8);
    out.push(32u8);
    out.push(112u8);
    out.push(97u8);
    out.push(114u8);
    out.push(115u8);
    out.push(105u8);
    out.push(110u8);
    out.push(103u8);
    out.push(32u8);
    out.push(101u8);
    out.push(114u8);
    out.push(114u8);
    out.push(111u8);
    out.push(114u8);
    out.push(58u8);
    out.push(32u8);
    proof {
        assert(out@ =~= old(out)@ + msg_url_parse());
    }
}

fn push_msg_syntax_load(out: &mut Vec<u8>)
    ensures
        final(out)@ == old(out)@ + msg_syntax_load(),
{
    out.push(69u8);
    out.push(114u8);
    out.push(114u8);
    out.push(111u8);
    out.push(114u8);
    out.push(32u8);
    out.push(108u8);
    out.push(111u8);
    out.push(97u8);
    out.push(100u8);
    out.push(105u8);
    out.push(110u8);
    out.push(103u8);
    out.push(32u8);
    out.push(115u8);
    out.push(121u8);
    out.push(110u8);
    out.push(116u8);
    out.push(97u8);
    out.push(120u8);
    out.push(32u8);
    out.push(102u8);
    out.push(111u8);
    out.push(114u8);
    out.push(32u8);
    proof {
        assert(out@ =~= old(out)@ + msg_syntax_load());
    }
}

fn push_msg_unknown_status(out: &mut Vec<u8>)
    ensures
        final(out)@ == old(out)@ + msg_unknown_status(),
{
    out.push(60u8);
    out.push(117u8);
    out.push(110u8);
    out.push(107u8);
    out.push(110u8);
    out.push(111u8);
    out.push(119u8);
    out.push(110u8);
    out.push(32u8);
    out.push(115u8);
    out.push(116u8);
    out.push(97u8);
    out.push(116u8);
    out.push(117u8);
    out.push(115u8);
    out.push(32u8);
    out.push(99u8);
    out.push(111u8);
    out.push(100u8);
    out.push(101u8);
    out.push(62u8);
    proof {
        assert(out@ =~= old(out)@ + msg_unknown_status());
    }
}

fn push_json_category_label(out: &mut Vec<u8>, c: JsonErrorCategory)
    ensures
        final(out)@ == old(out)@ + json_category_label(c),
{
    match c {
        JsonErrorCategory::Io => {
            out.push(73u8);
            out.push(111u8);
        },
        JsonErrorCategory::Syntax => {
            out.push(83u8);
            out.push(121u8);
            out.push(110u8);
            out.push(116u8);
            out.push(97u8);
            out.push(120u8);
        },
        JsonErrorCategory::Data => {
            out.push(68u8);
            out.push(97u8);
            out.push(116u8);
            out.push(97u8);
        },
        JsonErrorCategory::Eof => {
            out.push(69u8);
            out.push(111u8);
            out.push(102u8);
        },
    }
    proof {
        assert(out@ =~= old(out)@ + json_category_label(c));
    }
}

fn push_io_class_label(out: &mut Vec<u8>, k: IoErrorClass)
    ensures
        final(out)@ == old(out)@ + io_class_label(k),
{
    match k {
        IoErrorClass::NotFound => {
            out.push(78u8);
            out.push(111u8);
            out.push(116u8);
            out.push(70u8);
            out.push(111u8);
            out.push(117u8);
            out.push(110u8);
            out.push(100u8);
        },
        IoErrorClass::PermissionDenied => {
            out.push(80u8);
            out.push(101u8);
            out.push(114u8);
            out.push(109u8);
            out.push(105u8);
            out.push(115u8);
            out.push(115u8);
            out.push(105u8);
            out.push(111u8);
            out.push(110u8);
            out.push(68u8);
            out.push(101u8);
            out.push(110u8);
            out.push(105u8);
            out.push(101u8);
            out.push(100u8);
        },
        IoErrorClass::ConnectionRefused => {
            out.push(67u8);
            out.push(111u8);
            out.push(110u8);
            out.push(110u8);
            out.push(101u8);
            out.push(99u8);
            out.push(116u8);
            out.push(105u8);
            out.push(111u8);
            out.push(110u8);
            out.push(82u8);
            out.push(101u8);
            out.push(102u8);
            out.push(117u8);
            out.push(115u8);
            out.push(101u8);
            out.push(100u8);
        },
        IoErrorClass::ConnectionReset => {
            out.push(67u8);
            out.push(111u8);
            out.push(110u8);
            out.push(110u8);
            out.push(101u8);
            out.push(99u8);
            out.push(116u8);
            out.push(105u8);
            out.push(111u8);
            out.push(110u8);
            out.push(82u8);
            out.push(101u8);
            out.push(115u8);
            out.push(101u8);
            out.push(116u8);
        },
        IoErrorClass::ConnectionAborted => {
            out.push(67u8);
            out.push(111u8);
            out.push(110u8);
            out.push(110u8);
            out.push(101u8);
            out.push(99u8);
            out.push(116u8);
            out.push(105u8);
            out.push(111u8);
            out.push(110u8);
            out.push(65u8);
            out.push(98u8);
            out.push(111u8);
            out.push(114u8);
            out.push(116u8);
            out.push(101u8);
            out.push(100u8);
        },
        IoErrorClass::NotConnected => {
            out.push(78u8);
            out.push(111u8);
            out.push(116u8);
            out.push(67u8);
            out.push(111u8);
            out.push(110u8);
            out.push(110u8);
            out.push(101u8);
            out.push(99u8);
            out.push(116u8);
            out.push(101u8);
            out.push(100u8);
        },
        IoErrorClass::AddrInUse => {
            out.push(65u8);
            out.push(100u8);
            out.push(100u8);
            out.push(114u8);
            out.push(73u8);
            out.push(110u8);
            out.push(85u8);
            out.push(115u8);
            out.push(101u8);
        },
        IoErrorClass::AddrNotAvailable => {
            out.push(65u8);
            out.push(100u8);
            out.push(100u8);
            out.push(114u8);
            out.push(78u8);
            out.push(111u8);
            out.push(116u8);
            out.push(65u8);
            out.push(118u8);
            out.push(97u8);
            out.push(105u8);
            out.push(108u8);
            out.push(97u8);
            out.push(98u8);
            out.push(108u8);
            out.push(101u8);
        },
        IoErrorClass::BrokenPipe => {
            out.push(66u8);
            out.push(114u8);
            out.push(111u8);
            out.push(107u8);
            out.push(101u8);
            out.push(110u8);
            out.push(80u8);
            out.push(105u8);
            out.push(112u8);
            out.push(101u8);
        },
        IoErrorClass::AlreadyExists => {
            out.push(65u8);
            out.push(108u8);
            out.push(114u8);
            out.push(101u8);
            out.push(97u8);
            out.push(100u8);
            out.push(121u8);
            out.push(69u8);
            out.push(120u8);
            out.push(105u8);
            out.push(115u8);
            out.push(116u8);
            out.push(115u8);
        },
        IoErrorClass::WouldBlock => {
            out.push(87u8);
            out.push(111u8);
            out.push(117u8);
            out.push(108u8);
            out.push(100u8);
            out.push(66u8);
            out.push(108u8);
            out.push(111u8);
            out.push(99u8);
            out.push(107u8);
        },
        IoErrorClass::InvalidInput => {
            out.push(73u8);
            out.push(110u8);
            out.push(118u8);
            out.push(97u8);
            out.push(108u8);
            out.push(105u8);
            out.push(100u8);
            out.push(73u8);
            out.push(110u8);
            out.push(112u8);
            out.push(117u8);
            out.push(116u8);
        },
        IoErrorClass::InvalidData => {
            out.push(73u8);
            out.push(110u8);
            out.push(118u8);
            out.push(97u8);
            out.push(108u8);
            out.push(105u8);
            out.push(100u8);
            out.push(68u8);
            out.push(97u8);
            out.push(116u8);
            out.push(97u8);
        },
        IoErrorClass::TimedOut => {
            out.push(84u8);
            out.push(105u8);
            out.push(109u8);
            out.push(101u8);
            out.push(100u8);
            out.push(79u8);
            out.push(117u8);
            out.push(116u8);
        },
        IoErrorClass::WriteZero => {
            out.push(87u8);
            out.push(114u8);
            out.push(105u8);
            out.push(116u8);
            out.push(101u8);
            out.push(90u8);
            out.push(101u8);
            out.push(114u8);
            out.push(111u8);
        },
        IoErrorClass::Interrupted => {
            out.push(73u8);
            out.push(110u8);
            out.push(116u8);
            out.push(101u8);
            out.push(114u8);
            out.push(114u8);
            out.push(117u8);
            out.push(112u8);
            out.push(116u8);
            out.push(101u8);
            out.push(100u8);
        },
        IoErrorClass::Unsupported => {
            out.push(85u8);
            out.push(110u8);
            out.push(115u8);
            out.push(117u8);
            out.push(112u8);
            out.push(112u8);
            out.push(111u8);
            out.push(114u8);
            out.push(116u8);
            out.push(101u8);
            out.push(100u8);
        },
        IoErrorClass::UnexpectedEof => {
            out.push(85u8);
            out.push(110u8);
            out.push(101u8);
            out.push(120u8);
            out.push(112u8);
            out.push(101u8);
            out.push(99u8);
            out.push(116u8);
            out.push(101u8);
            out.push(100u8);
            out.push(69u8);
            out.push(111u8);
            out.push(102u8);
        },
        IoErrorClass::OutOfMemory => {
            out.push(79u8);
            out.push(117u8);
            out.push(116u8);
            out.push(79u8);
            out.push(102u8);
            out.push(77u8);
            out.push(101u8);
            out.push(109u8);
            out.push(111u8);
            out.push(114u8);
            out.push(121u8);
        },
        IoErrorClass::Other => {
            out.push(79u8);
            out.push(116u8);
            out.push(104u8);
            out.push(101u8);
            out.push(114u8);
        },
    }
    proof {
        assert(out@ =~= old(out)@ + io_class_label(k));
    }
}

impl Error {
    /// Renders the error as its one-line message.
    pub fn message(&self) -> (r: Vec<u8>)
        ensures
            r@ == spec_message(*self),
    {
        let mut out: Vec<u8> = Vec::new();
        match self {
            Error::ParameterMissingSeparator(s) => {
                push_msg_missing_separator(&mut out);
                push_bytes(&mut out, s.as_slice());
                proof {
                    assert(out@ =~= spec_message(*self));
                }
            },
            Error::MissingUrlAndCommand => {
                push_msg_missing_url_and_command(&mut out);
                proof {
                    assert(out@ =~= spec_message(*self));
                }
            },
            Error::NotFormButHasFormFile => {
                push_msg_not_form_but_has_form_file(&mut out);
                proof {
                    assert(out@ =~= spec_message(*self));
                }
            },
            Error::ClientSerialization => {
                push_msg_client_serialization(&mut out);
                proof {
                    assert(out@ =~= spec_message(*self));
                }
            },
            Error::ClientTimeout => {
                push_msg_client_timeout(&mut out);
                proof {
                    assert(out@ =~= spec_message(*self));
                }
            },
            Error::ClientOther => {
                push_msg_client_other(&mut out);
                proof {
                    assert(out@ =~= spec_message(*self));
                }
            },
            Error::ClientWithStatus(c) => {
                push_msg_client_with_status(&mut out);
                let d = u64_to_dec(*c as u64);
                push_bytes(&mut out, d.as_slice());
                out.push(32u8);
                match reason_phrase(*c) {
                    Some(r) => {
                        push_bytes(&mut out, r.as_slice());
                    },
                    None => {
                        push_msg_unknown_status(&mut out);
                    },
                }
                proof {
                    assert(out@ =~= spec_message(*self));
                }
            },
            Error::SerdeJson(c) => {
                push_msg_serde_json(&mut out);
                push_json_category_label(&mut out, *c);
                proof {
                    assert(out@ =~= spec_message(*self));
                }
            },
            Error::IO(k) => {
                push_msg_io(&mut out);
                push_io_class_label(&mut out, *k);
                proof {
                    assert(out@ =~= spec_message(*self));
                }
            },
            Error::UrlParseError(m) => {
                push_msg_url_parse(&mut out);
                push_bytes(&mut out, m.as_slice());
                proof {
                    assert(out@ =~= spec_message(*self));
                }
            },
            Error::SyntaxLoadError(n) => {
                push_msg_syntax_load(&mut out);
                push_bytes(&mut out, n.as_slice());
                proof {
                    assert(out@ =~= spec_message(*self));
                }
            },
        }
        out
    }
}

} // verus!
