//! The errors a conversion can end with.

use vstd::prelude::*;
use vstd::std_specs::convert::FromSpecImpl;
use vstd::string::*;

verus! {

/// `std::io::Error`, carried through as an opaque value.
#[verifier::external_type_specification]
#[verifier::external_body]
pub struct ExIoError(std::io::Error);

/// Whether an I/O error reports a premature end of input.
pub uninterp spec fn io_error_is_eof(e: std::io::Error) -> bool;

/// Calls `std::io::Error::kind` and tells whether the kind is
/// `std::io::ErrorKind::UnexpectedEof`.
#[verifier::external_body]
fn is_unexpected_eof(e: &std::io::Error) -> (b: bool)
    ensures
        b == io_error_is_eof(*e),
{
    matches!(e.kind(), std::io::ErrorKind::UnexpectedEof)
}

/// Why a conversion stopped.
#[derive(Debug)]
pub enum ErrorKind {
    /// The header's compression tag is neither 0 nor 1.
    CompressionUnknown(u32),
    /// Any other failure of the underlying I/O, such as corrupt data that
    /// the compression library reports.
    Io(std::io::Error),
    /// The stream ended inside a field or a chunk.
    UnexpectedEof,
    /// The header's version field is zero.
    VersionIsZero,
}

/// An error of a conversion.
#[derive(Debug)]
pub struct Error {
    pub kind: ErrorKind,
}

impl From<ErrorKind> for Error {
    fn from(kind: ErrorKind) -> (res: Error) {
        Error { kind }
    }
}

impl FromSpecImpl<ErrorKind> for Error {
    open spec fn obeys_from_spec() -> bool {
        true
    }

    open spec fn from_spec(kind: ErrorKind) -> Error {
        Error { kind }
    }
}

/// The error that a failure of the compression library is reported as: a
/// premature end of input as `UnexpectedEof`, anything else as `Io`.
pub open spec fn io_failure(e: std::io::Error) -> Error {
    if io_error_is_eof(e) {
        Error { kind: ErrorKind::UnexpectedEof }
    } else {
        Error { kind: ErrorKind::Io(e) }
    }
}

impl From<std::io::Error> for Error {
    fn from(e: std::io::Error) -> (res: Error) {
        if is_unexpected_eof(&e) {
            Error { kind: ErrorKind::UnexpectedEof }
        } else {
            Error { kind: ErrorKind::Io(e) }
        }
    }
}

impl FromSpecImpl<std::io::Error> for Error {
    open spec fn obeys_from_spec() -> bool {
        true
    }

    open spec fn from_spec(e: std::io::Error) -> Error {
        io_failure(e)
    }
}

/// The character of one decimal digit.
pub open spec fn digit_char(digit: nat) -> char
    recommends
        digit < 10,
{
    seq!['0', '1', '2', '3', '4', '5', '6', '7', '8', '9'][digit as int]
}

/// The decimal digits of a number, most significant first.
pub open spec fn decimal(n: nat) -> Seq<char>
    decreases n,
{
    if n < 10 {
        seq![digit_char(n)]
    } else {
        decimal(n / 10).push(digit_char(n % 10))
    }
}

fn digit_text(digit: u32) -> (text: &'static str)
    requires
        digit < 10,
    ensures
        text@ == seq![digit_char(digit as nat)],
{
    proof {
        reveal_strlit("0");
        reveal_strlit("1");
        reveal_strlit("2");
        reveal_strlit("3");
        reveal_strlit("4");
        reveal_strlit("5");
        reveal_strlit("6");
        reveal_strlit("7");
        reveal_strlit("8");
        reveal_strlit("9");
    }
    let text = match digit {
        0 => "0",
        1 => "1",
        2 => "2",
        3 => "3",
        4 => "4",
        5 => "5",
        6 => "6",
        7 => "7",
        8 => "8",
        _ => "9",
    };
    assert(text@ =~= seq![digit_char(digit as nat)]);
    text
}

fn append_decimal(text: &mut String, n: u32)
    ensures
        final(text)@ == old(text)@ + decimal(n as nat),
    decreases n,
{
    if n >= 10 {
        append_decimal(text, n / 10);
    }
    text.append(digit_text(n % 10));
    assert(text@ =~= old(text)@ + decimal(n as nat));
}

impl Error {
    /// The text that describes this error to a user.
    pub fn message(&self) -> (text: String)
        ensures
            match self.kind {
                ErrorKind::CompressionUnknown(tag) => text@ == "Unknown compression "@ + decimal(
                    tag as nat,
                ),
                ErrorKind::Io(e) => to_string_from_display_ensures::<std::io::Error>(&e, text),
                ErrorKind::UnexpectedEof => text@ == "Unexpected end-of-file"@,
                ErrorKind::VersionIsZero => text@ == "Version is 0"@,
            },
    {
        match &self.kind {
            ErrorKind::CompressionUnknown(tag) => {
                let mut text = String::from_str("Unknown compression ");
                append_decimal(&mut text, *tag);
                text
            },
            ErrorKind::Io(e) => e.to_string(),
            ErrorKind::UnexpectedEof => String::from_str("Unexpected end-of-file"),
            ErrorKind::VersionIsZero => String::from_str("Version is 0"),
        }
    }
}

} // verus!
