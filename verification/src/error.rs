//! The errors a configuration can be refused with, and their messages.

use vstd::prelude::*;
use vstd::string::*;

verus! {

/// An error met while reading or applying the configuration.
///
/// `Io` carries the failure of an input or output operation as three texts:
/// the name of its kind, its message, and its short description.
#[derive(Debug, PartialEq, Eq)]
pub enum HaxoniteError {
    Io(String, String, String),
    NoRequestDefined,
    NoPathDefined(String),
    NoResponseDefined(String),
    ResponseDoesNotExist(String),
    InvalidHTTPStatus(String, u16),
    InvalidHTTPMethod(String),
    InvalidType(String),
}

/// The mathematical model of an error: each text is a sequence of characters.
pub enum HaxoniteErrorView {
    Io(Seq<char>, Seq<char>, Seq<char>),
    NoRequestDefined,
    NoPathDefined(Seq<char>),
    NoResponseDefined(Seq<char>),
    ResponseDoesNotExist(Seq<char>),
    InvalidHTTPStatus(Seq<char>, u16),
    InvalidHTTPMethod(Seq<char>),
    InvalidType(Seq<char>),
}

impl View for HaxoniteError {
    type V = HaxoniteErrorView;

    open spec fn view(&self) -> HaxoniteErrorView {
        match self {
            HaxoniteError::Io(kind, text, description) => HaxoniteErrorView::Io(
                kind@,
                text@,
                description@,
            ),
            HaxoniteError::NoRequestDefined => HaxoniteErrorView::NoRequestDefined,
            HaxoniteError::NoPathDefined(r) => HaxoniteErrorView::NoPathDefined(r@),
            HaxoniteError::NoResponseDefined(r) => HaxoniteErrorView::NoResponseDefined(r@),
            HaxoniteError::ResponseDoesNotExist(r) => HaxoniteErrorView::ResponseDoesNotExist(r@),
            HaxoniteError::InvalidHTTPStatus(r, s) => HaxoniteErrorView::InvalidHTTPStatus(r@, *s),
            HaxoniteError::InvalidHTTPMethod(r) => HaxoniteErrorView::InvalidHTTPMethod(r@),
            HaxoniteError::InvalidType(r) => HaxoniteErrorView::InvalidType(r@),
        }
    }
}

/// The decimal digits, in order.
pub open spec fn digits() -> Seq<char> {
    "0123456789"@
}

/// The decimal notation of a natural number, without leading zeros.
pub open spec fn decimal(n: nat) -> Seq<char>
    decreases n,
{
    if n < 10 {
        seq![digits()[n as int]]
    } else {
        decimal(n / 10).push(digits()[(n % 10) as int])
    }
}

/// The number that a text of decimal digits stands for, read from left to right.
pub open spec fn digits_value(s: Seq<char>) -> int
    decreases s.len(),
{
    if s.len() == 0 {
        0
    } else {
        digits_value(s.drop_last()) * 10 + (s.last() as u32 - 48)
    }
}

/// The digit for `k` stands for `k`.
proof fn lemma_digit(k: int)
    requires
        0 <= k < 10,
    ensures
        '0' <= digits()[k] <= '9',
        digits()[k] as u32 - 48 == k,
{
    reveal_strlit("0123456789");
    assert(digits() =~= seq!['0', '1', '2', '3', '4', '5', '6', '7', '8', '9']);
}

/// The decimal notation of a number is made of the digits `0` to `9`, starts
/// with `0` only for zero itself, and reads back as the number.
pub proof fn lemma_decimal_reads_back(n: nat)
    ensures
        decimal(n).len() >= 1,
        forall|i: int| 0 <= i < decimal(n).len() ==> '0' <= #[trigger] decimal(n)[i] <= '9',
        decimal(n)[0] == '0' <==> n == 0,
        digits_value(decimal(n)) == n,
    decreases n,
{
    if n < 10 {
        lemma_digit(n as int);
        assert(decimal(n).drop_last() =~= Seq::<char>::empty());
        assert(digits_value(decimal(n)) == digits_value(Seq::<char>::empty()) * 10 + n);
    } else {
        lemma_decimal_reads_back(n / 10);
        lemma_digit((n % 10) as int);
        let d = decimal(n);
        assert(d.drop_last() =~= decimal(n / 10));
        assert(forall|i: int| 0 <= i < d.len() - 1 ==> d[i] == decimal(n / 10)[i]);
        assert(d[0] == decimal(n / 10)[0]);
        assert(d.last() == digits()[(n % 10) as int]);
        assert(digits_value(d) == digits_value(decimal(n / 10)) * 10 + (n % 10));
        vstd::arithmetic::div_mod::lemma_fundamental_div_mod(n as int, 10);
    }
}

/// The short description of an error.
pub open spec fn spec_description(e: HaxoniteErrorView) -> Seq<char> {
    match e {
        HaxoniteErrorView::Io(_, _, description) => description,
        HaxoniteErrorView::NoRequestDefined => "No request defined in config.toml"@,
        HaxoniteErrorView::NoPathDefined(_) => "No path defined for request in config.toml"@,
        HaxoniteErrorView::NoResponseDefined(_) => "No response defined for request in config.toml"@,
        HaxoniteErrorView::ResponseDoesNotExist(_) =>
            "Response file define in config.toml does not exist"@,
        HaxoniteErrorView::InvalidHTTPStatus(_, _) => "InvalidHTTPStatus"@,
        HaxoniteErrorView::InvalidHTTPMethod(_) => "InvalidHTTPMethod"@,
        HaxoniteErrorView::InvalidType(_) => "InvalidType"@,
    }
}

/// The full message of an error, as it is shown to the user.
pub open spec fn spec_message(e: HaxoniteErrorView) -> Seq<char> {
    match e {
        HaxoniteErrorView::Io(kind, text, _) => kind + ": "@ + text,
        HaxoniteErrorView::NoRequestDefined =>
            "NoRequestDefined error: No request defined in config.toml"@,
        HaxoniteErrorView::NoPathDefined(r) =>
            "NoPathDefined error: No path defined for "@ + r + " request in config.toml"@,
        HaxoniteErrorView::NoResponseDefined(r) =>
            "NoResponseDefined error: No response defined for "@ + r + " request in config.toml"@,
        HaxoniteErrorView::ResponseDoesNotExist(r) =>
            "NoResponseDefined error: Response file defined for "@ + r
                + " request in config.toml does not exist"@,
        HaxoniteErrorView::InvalidHTTPStatus(r, s) =>
            "InvalidHTTPStatus: Status "@ + decimal(s as nat) + " defined for "@ + r
                + " request in config.toml is not a valid HTTP status"@,
        HaxoniteErrorView::InvalidHTTPMethod(r) =>
            "InvalidHTTPMethod error: Invalid HTTP method defined for "@ + r
                + " request in config.toml"@,
        HaxoniteErrorView::InvalidType(r) =>
            "InvalidType error: Invalid type defined for "@ + r + " request in config.toml"@,
    }
}

/// Appends the decimal notation of `n` to `s`.
fn append_decimal(s: &mut String, n: u16)
    ensures
        final(s)@ == old(s)@ + decimal(n as nat),
    decreases n,
{
    let ghost before = s@;
    if n >= 10 {
        append_decimal(s, n / 10);
    }
    proof {
        reveal_strlit("0123456789");
    }
    let d: usize = (n % 10) as usize;
    let digit = "0123456789".substring_char(d, d + 1);
    s.append(digit);
    proof {
        assert(digit@ =~= seq![digits()[d as int]]);
        assert(s@ =~= before + decimal(n as nat));
    }
}

/// Builds `prefix + middle + suffix`.
fn surround(prefix: &str, middle: &str, suffix: &str) -> (r: String)
    ensures
        r@ == prefix@ + middle@ + suffix@,
{
    let mut r = prefix.to_owned();
    r.append(middle);
    r.append(suffix);
    r
}

impl HaxoniteError {
    /// The short description of the error.
    pub fn description(&self) -> (r: &str)
        ensures
            r@ == spec_description(self@),
    {
        match self {
            HaxoniteError::Io(_, _, description) => description.as_str(),
            HaxoniteError::NoRequestDefined => "No request defined in config.toml",
            HaxoniteError::NoPathDefined(_) => "No path defined for request in config.toml",
            HaxoniteError::NoResponseDefined(_) => "No response defined for request in config.toml",
            HaxoniteError::ResponseDoesNotExist(_) =>
                "Response file define in config.toml does not exist",
            HaxoniteError::InvalidHTTPStatus(_, _) => "InvalidHTTPStatus",
            HaxoniteError::InvalidHTTPMethod(_) => "InvalidHTTPMethod",
            HaxoniteError::InvalidType(_) => "InvalidType",
        }
    }

    /// The underlying input or output failure, if the error has one.
    pub fn cause(&self) -> (r: Option<&String>)
        ensures
            r.is_some() <==> self@ is Io,
            self@ matches HaxoniteErrorView::Io(_, text, _) ==> r.unwrap()@ == text,
    {
        match self {
            HaxoniteError::Io(_, text, _) => Some(text),
            _ => None,
        }
    }

    /// The full message of the error.
    pub fn message(&self) -> (r: String)
        ensures
            r@ == spec_message(self@),
    {
        match self {
            HaxoniteError::Io(kind, text, _) => surround(kind.as_str(), ": ", text.as_str()),
            HaxoniteError::NoRequestDefined =>
                "NoRequestDefined error: No request defined in config.toml".to_owned(),
            HaxoniteError::NoPathDefined(r) => surround(
                "NoPathDefined error: No path defined for ",
                r.as_str(),
                " request in config.toml",
            ),
            HaxoniteError::NoResponseDefined(r) => surround(
                "NoResponseDefined error: No response defined for ",
                r.as_str(),
                " request in config.toml",
            ),
            HaxoniteError::ResponseDoesNotExist(r) => surround(
                "NoResponseDefined error: Response file defined for ",
                r.as_str(),
                " request in config.toml does not exist",
            ),
            HaxoniteError::InvalidHTTPStatus(r, status) => {
                let mut m = "InvalidHTTPStatus: Status ".to_owned();
                append_decimal(&mut m, *status);
                m.append(" defined for ");
                m.append(r.as_str());
                m.append(" request in config.toml is not a valid HTTP status");
                m
            },
            HaxoniteError::InvalidHTTPMethod(r) => surround(
                "InvalidHTTPMethod error: Invalid HTTP method defined for ",
                r.as_str(),
                " request in config.toml",
            ),
            HaxoniteError::InvalidType(r) => surround(
                "InvalidType error: Invalid type defined for ",
                r.as_str(),
                " request in config.toml",
            ),
        }
    }
}

} // verus!
