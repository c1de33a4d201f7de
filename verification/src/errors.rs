//! Errors of the remote-API layer, with plain data and rendered messages.

use vstd::prelude::*;
use vstd::string::StringExecFns;

verus! {

/// The decimal digit character of a value below ten.
pub open spec fn dec_digit(d: nat) -> char {
    if d == 0 {
        '0'
    } else if d == 1 {
        '1'
    } else if d == 2 {
        '2'
    } else if d == 3 {
        '3'
    } else if d == 4 {
        '4'
    } else if d == 5 {
        '5'
    } else if d == 6 {
        '6'
    } else if d == 7 {
        '7'
    } else if d == 8 {
        '8'
    } else {
        '9'
    }
}

/// The decimal representation of a number, most significant digit first.
pub open spec fn dec_str(n: nat) -> Seq<char>
    decreases n,
{
    if n < 10 {
        seq![dec_digit(n)]
    } else {
        dec_str(n / 10).push(dec_digit(n % 10))
    }
}

/// Render a status code in decimal.
pub fn u16_to_string(n: u16) -> (r: String)
    ensures
        r@ == dec_str(n as nat),
{
    let mut digits: Vec<char> = Vec::new();
    let mut m: u16 = n;
    digits.insert(0, dec_digit_char(m % 10));
    m = m / 10;
    while m > 0
        invariant
            dec_str(n as nat) == if m > 0 {
                dec_str(m as nat) + digits@
            } else {
                digits@
            },
        decreases m,
    {
        let ghost prev = digits@;
        digits.insert(0, dec_digit_char(m % 10));
        proof {
            assert(digits@ =~= seq![dec_digit((m % 10) as nat)] + prev);
            if m >= 10 {
                assert(dec_str(m as nat) == dec_str((m / 10) as nat).push(
                    dec_digit((m % 10) as nat),
                ));
                assert(dec_str((m / 10) as nat) + digits@ =~= dec_str(m as nat) + prev);
            } else {
                assert(dec_str(m as nat) =~= seq![dec_digit(m as nat)]);
                assert(digits@ =~= dec_str(m as nat) + prev);
            }
        }
        m = m / 10;
    }
    crate::strutil::chars_to_string(&digits)
}

/// Render the digit character of a value below ten.
fn dec_digit_char(d: u16) -> (r: char)
    requires
        d < 10,
    ensures
        r == dec_digit(d as nat),
{
    match d {
        0 => '0',
        1 => '1',
        2 => '2',
        3 => '3',
        4 => '4',
        5 => '5',
        6 => '6',
        7 => '7',
        8 => '8',
        _ => '9',
    }
}

/// Errors that can occur when interacting with the Confluence API. Each
/// variant holds the plain data of its cause; transport-level failures carry
/// their rendered text.
#[derive(Debug, PartialEq)]
pub enum ConfluenceError {
    /// HTTP request failed.
    Http { message: String },
    /// JSON serialization/deserialization failed.
    Json { message: String },
    /// Authentication failed.
    Authentication { message: String },
    /// Page not found.
    PageNotFound { page_id: String },
    /// Label operation failed.
    LabelOperation { message: String },
    /// CQL query error.
    CqlQuery { query: String, message: String },
    /// API returned an error response.
    ApiError { status: u16, message: String },
    /// Invalid URL provided.
    InvalidUrl { message: String },
    /// Configuration error.
    Config { message: String },
}

impl ConfluenceError {
    /// The error, in words.
    pub fn message(&self) -> (r: String)
        ensures
            self matches ConfluenceError::Http { message } ==> r@ == "HTTP request failed: "@
                + message@,
            self matches ConfluenceError::Json { message } ==> r@ == "JSON error: "@ + message@,
            self matches ConfluenceError::Authentication { message } ==> r@
                == "Authentication failed: "@ + message@,
            self matches ConfluenceError::PageNotFound { page_id } ==> r@ == "Page not found: "@
                + page_id@,
            self matches ConfluenceError::LabelOperation { message } ==> r@
                == "Label operation failed: "@ + message@,
            self matches ConfluenceError::CqlQuery { query, message } ==> r@
                == "CQL query failed: "@ + query@ + " - "@ + message@,
            self matches ConfluenceError::ApiError { status, message } ==> r@ == "API error "@
                + dec_str(status as nat) + ": "@ + message@,
            self matches ConfluenceError::InvalidUrl { message } ==> r@ == "Invalid URL: "@
                + message@,
            self matches ConfluenceError::Config { message } ==> r@ == "Configuration error: "@
                + message@,
    {
        match self {
            ConfluenceError::Http { message } => {
                let mut s = String::from_str("HTTP request failed: ");
                s.append(message.as_str());
                s
            },
            ConfluenceError::Json { message } => {
                let mut s = String::from_str("JSON error: ");
                s.append(message.as_str());
                s
            },
            ConfluenceError::Authentication { message } => {
                let mut s = String::from_str("Authentication failed: ");
                s.append(message.as_str());
                s
            },
            ConfluenceError::PageNotFound { page_id } => {
                let mut s = String::from_str("Page not found: ");
                s.append(page_id.as_str());
                s
            },
            ConfluenceError::LabelOperation { message } => {
                let mut s = String::from_str("Label operation failed: ");
                s.append(message.as_str());
                s
            },
            ConfluenceError::CqlQuery { query, message } => {
                let mut s = String::from_str("CQL query failed: ");
                s.append(query.as_str());
                s.append(" - ");
                s.append(message.as_str());
                s
            },
            ConfluenceError::ApiError { status, message } => {
                let mut s = String::from_str("API error ");
                let status_str = u16_to_string(*status);
                s.append(status_str.as_str());
                s.append(": ");
                s.append(message.as_str());
                s
            },
            ConfluenceError::InvalidUrl { message } => {
                let mut s = String::from_str("Invalid URL: ");
                s.append(message.as_str());
                s
            },
            ConfluenceError::Config { message } => {
                let mut s = String::from_str("Configuration error: ");
                s.append(message.as_str());
                s
            },
        }
    }
}

} // verus!
