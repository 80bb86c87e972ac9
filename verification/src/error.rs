//! The errors of the link shortener, their HTTP status codes and their messages.

use vstd::prelude::*;

verus! {

/// Why a short path could not be decoded into keys.
#[derive(Debug, Clone, Copy, PartialEq, Eq, Structural)]
pub enum HashidError {
    /// A hex value could not be decoded.
    Hex,
    /// The input is not a hashid that this hasher produces.
    Decode,
}

/// Why a hasher could not be built from its settings.
#[derive(Debug, Clone, Copy, PartialEq, Eq, Structural)]
pub enum HasherBuildError {
    /// The alphabet has fewer than 16 distinct characters.
    AlphabetLength,
    /// The alphabet holds a character that it may not hold (a space).
    IllegalCharacter(char),
    /// A separator is missing from the alphabet.
    Separator,
}

/// The errors that a request to the shortener can end in.
#[derive(Debug)]
pub enum Error {
    NotFound,
    Unknown,
    /// The link is not a URL; holds the parser's description of why.
    ParseError(String),
    UrlGenerationError(String),
    InvalidLink,
    InvalidScheme,
    DatabaseError(String),
    HasherError(HashidError),
    TemplateError(String),
}

/// The HTTP status code that answers each error: 404 for a missing link,
/// 400 for a request that is at fault, 500 for a failure of the service.
pub open spec fn spec_status_code(e: Error) -> u16 {
    match e {
        Error::NotFound => 404,
        Error::Unknown => 500,
        Error::ParseError(_) => 400,
        Error::UrlGenerationError(_) => 400,
        Error::InvalidLink => 400,
        Error::InvalidScheme => 400,
        Error::DatabaseError(_) => 500,
        Error::HasherError(_) => 500,
        Error::TemplateError(_) => 500,
    }
}

/// The message that describes each error to the user.
pub open spec fn spec_description(e: Error) -> Seq<char> {
    match e {
        Error::NotFound => "Requested file was not found"@,
        Error::Unknown => "Unknown internal error"@,
        Error::ParseError(_) => "Parse error"@,
        Error::UrlGenerationError(_) => "Failed to generate resource URI"@,
        Error::InvalidLink => "Link has invalid hostname"@,
        Error::InvalidScheme => "Link has invalid scheme"@,
        Error::DatabaseError(_) => "Database error"@,
        Error::HasherError(_) => "Unable to decode short link"@,
        Error::TemplateError(_) => "Templating error"@,
    }
}

/// The decimal digit character for `d < 10`.
pub open spec fn digit_char(d: nat) -> char {
    (d + 48) as char
}

/// The decimal notation of `n`, without leading zeros.
pub open spec fn decimal_digits(n: nat) -> Seq<char>
    decreases n,
{
    if n < 10 {
        seq![digit_char(n)]
    } else {
        decimal_digits(n / 10).push(digit_char(n % 10))
    }
}

fn digit_str(d: u16) -> (s: &'static str)
    requires
        d < 10,
    ensures
        s@ == seq![digit_char(d as nat)],
{
    proof {
        reveal_strlit("0");
        reveal_strlit("1");
        reveal_strlit("2");
        reveal_strlit("3");
        reveal_strlit("4");
        reveal_strlit("5");
        reveal_strlit("6");
        reveal_strlit("7");
        reveal_strlit("8");
        reveal_strlit("9");
    }
    match d {
        0 => "0",
        1 => "1",
        2 => "2",
        3 => "3",
        4 => "4",
        5 => "5",
        6 => "6",
        7 => "7",
        8 => "8",
        _ => "9",
    }
}

/// Writes `n` in decimal.
pub fn decimal_string(n: u16) -> (s: String)
    ensures
        s@ == decimal_digits(n as nat),
    decreases n,
{
    if n < 10 {
        digit_str(n).to_owned()
    } else {
        let mut s = decimal_string(n / 10);
        s.append(digit_str(n % 10));
        s
    }
}

impl Error {
    /// The HTTP status code that answers this error.
    pub fn status_code(&self) -> (code: u16)
        ensures
            code == spec_status_code(*self),
    {
        match self {
            Error::NotFound => 404,
            Error::Unknown => 500,
            Error::ParseError(_) => 400,
            Error::UrlGenerationError(_) => 400,
            Error::InvalidLink => 400,
            Error::InvalidScheme => 400,
            Error::DatabaseError(_) => 500,
            Error::HasherError(_) => 500,
            Error::TemplateError(_) => 500,
        }
    }

    /// The message that describes this error to the user.
    pub fn description(&self) -> (text: &'static str)
        ensures
            text@ == spec_description(*self),
    {
        match self {
            Error::NotFound => "Requested file was not found",
            Error::Unknown => "Unknown internal error",
            Error::ParseError(_) => "Parse error",
            Error::UrlGenerationError(_) => "Failed to generate resource URI",
            Error::InvalidLink => "Link has invalid hostname",
            Error::InvalidScheme => "Link has invalid scheme",
            Error::DatabaseError(_) => "Database error",
            Error::HasherError(_) => "Unable to decode short link",
            Error::TemplateError(_) => "Templating error",
        }
    }

    /// The status code of this error written in decimal, as the title of an error page.
    pub fn status_text(&self) -> (text: String)
        ensures
            text@ == decimal_digits(spec_status_code(*self) as nat),
    {
        decimal_string(self.status_code())
    }
}

} // verus!
