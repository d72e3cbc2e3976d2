//! The library's error type.
//!
//! Every failure mode is a typed error. Nothing in the render path is allowed to
//! panic — a panic in WASM aborts the whole Worker isolate, so a malformed spec
//! from a request must come back as an `Err`.

use vstd::prelude::*;
use vstd::string::StringExecFns;

verus! {

#[derive(Debug)]
pub enum Error {
    /// The spec was not valid JSON, or did not match the expected shape. Holds
    /// the JSON parser's description of the fault.
    Parse(String),
    /// A mark type we do not implement (`area`, `tick`, `rule`, ...).
    UnsupportedMark(String),
    /// A field type we do not implement (`temporal`, `geojson`).
    UnsupportedFieldType(String),
    /// A data source other than inline `values`.
    UnsupportedData(&'static str),
    /// A required encoding channel was absent.
    MissingEncoding(&'static str),
    /// An encoding channel was present but had no `field`.
    MissingField(&'static str),
    /// An encoded field is not present in the data rows.
    UnknownField(String),
    /// The encoding channels are individually valid but not a combination this
    /// mark can draw (e.g. a bar with two quantitative channels).
    UnsupportedEncoding(String),
    /// `width`/`height` were zero, negative, or absurdly large.
    InvalidSize(String),
    /// PNG encoding failed.
    Encode(String),
}

pub type Result<T> = core::result::Result<T, Error>;

/// What an [`Error`] says, as text: the variant and its payload.
pub enum Fault {
    Parse(Seq<char>),
    UnsupportedMark(Seq<char>),
    UnsupportedFieldType(Seq<char>),
    UnsupportedData(Seq<char>),
    MissingEncoding(Seq<char>),
    MissingField(Seq<char>),
    UnknownField(Seq<char>),
    UnsupportedEncoding(Seq<char>),
    InvalidSize(Seq<char>),
    Encode(Seq<char>),
}

impl View for Error {
    type V = Fault;

    open spec fn view(&self) -> Fault {
        match self {
            Error::Parse(s) => Fault::Parse(s@),
            Error::UnsupportedMark(s) => Fault::UnsupportedMark(s@),
            Error::UnsupportedFieldType(s) => Fault::UnsupportedFieldType(s@),
            Error::UnsupportedData(s) => Fault::UnsupportedData(s@),
            Error::MissingEncoding(s) => Fault::MissingEncoding(s@),
            Error::MissingField(s) => Fault::MissingField(s@),
            Error::UnknownField(s) => Fault::UnknownField(s@),
            Error::UnsupportedEncoding(s) => Fault::UnsupportedEncoding(s@),
            Error::InvalidSize(s) => Fault::InvalidSize(s@),
            Error::Encode(s) => Fault::Encode(s@),
        }
    }
}

/// The outcome of a fallible step, by value and by what its error says.
pub open spec fn outcome<T>(r: core::result::Result<T, Error>) -> core::result::Result<T, Fault> {
    match r {
        Ok(v) => Ok(v),
        Err(e) => Err(e@),
    }
}

/// What `{:?}` prints for a string: Rust's quoted, escaped form.
pub uninterp spec fn debug_quoted(s: Seq<char>) -> Seq<char>;

/// Formats a string with `std`'s `Debug` for `str` (`format!("{s:?}")`).
/// Trusted to give back exactly `debug_quoted` of the characters it was given.
#[verifier::external_body]
fn debug_string(s: &str) -> (r: String)
    ensures
        r@ == debug_quoted(s@),
{
    format!("{s:?}")
}

/// The message an error displays.
pub open spec fn message_of(f: Fault) -> Seq<char> {
    match f {
        Fault::Parse(e) => "invalid spec: "@ + e,
        Fault::UnsupportedMark(m) => "unsupported mark type: "@ + debug_quoted(m),
        Fault::UnsupportedFieldType(t) => "unsupported field type: "@ + debug_quoted(t),
        Fault::UnsupportedData(what) => "unsupported data source: "@ + what,
        Fault::MissingEncoding(c) => "missing required encoding channel: "@ + c,
        Fault::MissingField(c) => "encoding channel "@ + c + " has no field"@,
        Fault::UnknownField(name) => "field "@ + debug_quoted(name) + " is not present in the data"@,
        Fault::UnsupportedEncoding(why) => "unsupported encoding: "@ + why,
        Fault::InvalidSize(why) => "invalid chart size: "@ + why,
        Fault::Encode(e) => "png encoding failed: "@ + e,
    }
}

impl Error {
    /// The human-readable description of this error.
    pub fn message(&self) -> (r: String)
        ensures
            r@ == message_of(self@),
    {
        match self {
            Error::Parse(e) => String::from_str("invalid spec: ").concat(e.as_str()),
            Error::UnsupportedMark(m) => {
                String::from_str("unsupported mark type: ").concat(debug_string(m.as_str()).as_str())
            },
            Error::UnsupportedFieldType(t) => {
                String::from_str("unsupported field type: ").concat(debug_string(t.as_str()).as_str())
            },
            Error::UnsupportedData(what) => {
                String::from_str("unsupported data source: ").concat(what)
            },
            Error::MissingEncoding(c) => {
                String::from_str("missing required encoding channel: ").concat(c)
            },
            Error::MissingField(c) => {
                String::from_str("encoding channel ").concat(c).concat(" has no field")
            },
            Error::UnknownField(name) => {
                String::from_str("field ").concat(debug_string(name.as_str()).as_str()).concat(
                    " is not present in the data",
                )
            },
            Error::UnsupportedEncoding(why) => {
                String::from_str("unsupported encoding: ").concat(why.as_str())
            },
            Error::InvalidSize(why) => {
                String::from_str("invalid chart size: ").concat(why.as_str())
            },
            Error::Encode(e) => String::from_str("png encoding failed: ").concat(e.as_str()),
        }
    }
}

} // verus!
