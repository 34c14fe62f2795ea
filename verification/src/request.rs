//! The request formats a gateway accepts, parsed case-insensitively from a
//! format name or MIME type. The raw header plumbing stays outside; this
//! module decides, from plain string values, which format was asked for.

use vstd::prelude::*;
use vstd::slice::slice_index_get;
use vstd::string::StringSliceAdditionalSpecFns;

verus! {

/// The error prefix for an unsupported format.
pub const ERR_UNSUPPORTED_FORMAT: &'static str = "unsuported format";

/// The MIME type of raw block responses.
pub const MIME_TYPE_IPLD_RAW: &'static str = "application/vnd.ipld.raw";

/// The MIME type of CAR file responses.
pub const MIME_TYPE_IPLD_CAR: &'static str = "application/vnd.ipld.car";

/// The two supported request formats.
#[derive(Debug, Clone, Copy, PartialEq, Eq, Structural)]
pub enum RequestFormat {
    Raw,
    Car,
}

/// A byte with any ASCII capital letter lowered.
pub open spec fn lower_byte(b: u8) -> u8 {
    if 65 <= b <= 90 {
        (b + 32) as u8
    } else {
        b
    }
}

/// A byte string with all ASCII capitals lowered.
pub open spec fn lower_bytes(s: Seq<u8>) -> Seq<u8> {
    s.map_values(|b: u8| lower_byte(b))
}

/// Whether two byte strings match up to ASCII case.
pub open spec fn matches_ignore_case(a: Seq<u8>, b: Seq<u8>) -> bool {
    lower_bytes(a) == lower_bytes(b)
}

/// The format a string names, matched case-insensitively against the two
/// MIME types and the short names "raw" and "car"; `None` for anything
/// else.
pub open spec fn parse_format(s: Seq<u8>) -> Option<RequestFormat> {
    if matches_ignore_case(s, MIME_TYPE_IPLD_RAW.spec_bytes()) || matches_ignore_case(
        s,
        ("raw").spec_bytes(),
    ) {
        Option::Some(RequestFormat::Raw)
    } else if matches_ignore_case(s, MIME_TYPE_IPLD_CAR.spec_bytes()) || matches_ignore_case(
        s,
        ("car").spec_bytes(),
    ) {
        Option::Some(RequestFormat::Car)
    } else {
        Option::None
    }
}

/// Compares two byte strings up to ASCII case.
fn eq_ignore_case(a: &[u8], b: &[u8]) -> (r: bool)
    ensures
        r == matches_ignore_case(a@, b@),
{
    if a.len() != b.len() {
        proof {
            assert(lower_bytes(a@).len() != lower_bytes(b@).len());
        }
        return false;
    }
    let n: usize = a.len();
    let mut i: usize = 0;
    while i < n
        invariant
            i <= n,
            n == a@.len(),
            a@.len() == b@.len(),
            forall|j: int| 0 <= j < i ==> lower_byte(a@[j]) == lower_byte(b@[j]),
        decreases n - i,
    {
        let mut x: u8 = *slice_index_get(a, i);
        let mut y: u8 = *slice_index_get(b, i);
        if 65 <= x && x <= 90 {
            x = x + 32;
        }
        if 65 <= y && y <= 90 {
            y = y + 32;
        }
        if x != y {
            proof {
                assert(lower_bytes(a@)[i as int] != lower_bytes(b@)[i as int]);
            }
            return false;
        }
        i = i + 1;
    }
    proof {
        assert(lower_bytes(a@) =~= lower_bytes(b@));
    }
    true
}

/// Relies on std's string formatting: the result is the prefix, a colon and
/// a space, and the detail, concatenated.
#[verifier::external_body]
fn format_error(prefix: &str, detail: &str) -> (r: String)
    ensures
        r@ == prefix@ + ": "@ + detail@,
{
    format!("{}: {}", prefix, detail)
}

impl RequestFormat {
    /// The MIME type this format is served as.
    pub fn to_string(&self) -> (r: String)
        ensures
            *self == RequestFormat::Raw ==> r@ == MIME_TYPE_IPLD_RAW@,
            *self == RequestFormat::Car ==> r@ == MIME_TYPE_IPLD_CAR@,
    {
        match self {
            RequestFormat::Raw => MIME_TYPE_IPLD_RAW.to_owned(),
            RequestFormat::Car => MIME_TYPE_IPLD_CAR.to_owned(),
        }
    }

    /// Parses a format name or MIME type, ignoring ASCII case. Succeeds
    /// exactly on the strings `parse_format` accepts; anything else is
    /// rejected with the unsupported-format message naming the input.
    pub fn try_from(s: &str) -> (r: Result<RequestFormat, String>)
        ensures
            match r {
                Result::Ok(f) => parse_format(s.spec_bytes()) == Option::Some(f),
                Result::Err(m) => parse_format(s.spec_bytes()) is None && m@
                    == ERR_UNSUPPORTED_FORMAT@ + ": "@ + s@,
            },
    {
        let bytes = s.as_bytes();
        if eq_ignore_case(bytes, MIME_TYPE_IPLD_RAW.as_bytes()) || eq_ignore_case(
            bytes,
            ("raw").as_bytes(),
        ) {
            Result::Ok(RequestFormat::Raw)
        } else if eq_ignore_case(bytes, MIME_TYPE_IPLD_CAR.as_bytes()) || eq_ignore_case(
            bytes,
            ("car").as_bytes(),
        ) {
            Result::Ok(RequestFormat::Car)
        } else {
            Result::Err(format_error(ERR_UNSUPPORTED_FORMAT, s))
        }
    }

    /// Picks the first of the content-type values that names a supported
    /// format. The surrounding code hands in the comma-separated header
    /// values already split and trimmed.
    pub fn try_from_headers(values: &Vec<String>) -> (r: Result<RequestFormat, String>)
        ensures
            header_format_result(values@, r),
    {
        let n: usize = values.len();
        let mut i: usize = 0;
        while i < n
            invariant
                i <= n,
                n == values@.len(),
                forall|j: int|
                    0 <= j < i ==> parse_format(
                        vstd::utf8::encode_utf8((#[trigger] values@[j])@),
                    ) is None,
            decreases n - i,
        {
            match RequestFormat::try_from(values[i].as_str()) {
                Result::Ok(f) => {
                    return Result::Ok(f);
                },
                Result::Err(_) => {},
            }
            i = i + 1;
        }
        Result::Err(format_error(ERR_UNSUPPORTED_FORMAT, "none"))
    }
}

/// What a format lookup over a list of header values returns: the first
/// value naming a format, or the unsupported-format message when none
/// does.
pub open spec fn header_format_result(values: Seq<String>, r: Result<RequestFormat, String>) -> bool {
    match r {
        Result::Ok(f) => exists|i: int|
            {
                &&& 0 <= i < values.len()
                &&& parse_format(vstd::utf8::encode_utf8((#[trigger] values[i])@))
                    == Option::Some(f)
                &&& forall|j: int|
                    0 <= j < i ==> parse_format(
                        vstd::utf8::encode_utf8((#[trigger] values[j])@),
                    ) is None
            },
        Result::Err(m) => (forall|i: int|
            0 <= i < values.len() ==> parse_format(
                vstd::utf8::encode_utf8((#[trigger] values[i])@),
            ) is None) && m@ == ERR_UNSUPPORTED_FORMAT@ + ": "@ + "none"@,
    }
}

/// Decides the request format: a non-empty `format` query parameter wins,
/// otherwise the content-type values decide.
pub fn get_request_format(
    content_type_values: &Vec<String>,
    query_format: &Option<String>,
) -> (r: Result<RequestFormat, String>)
    ensures
        match *query_format {
            Option::Some(q) => if q@.len() > 0 {
                match r {
                    Result::Ok(f) => parse_format(vstd::utf8::encode_utf8(q@)) == Option::Some(f),
                    Result::Err(m) => parse_format(vstd::utf8::encode_utf8(q@)) is None && m@
                        == ERR_UNSUPPORTED_FORMAT@ + ": "@ + q@,
                }
            } else {
                header_format_result(content_type_values@, r)
            },
            Option::None => header_format_result(content_type_values@, r),
        },
{
    match query_format {
        Option::Some(q) => {
            if !q.as_str().is_empty() {
                RequestFormat::try_from(q.as_str())
            } else {
                RequestFormat::try_from_headers(content_type_values)
            }
        },
        Option::None => RequestFormat::try_from_headers(content_type_values),
    }
}

} // verus!
