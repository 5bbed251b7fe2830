//! Errors that can occur when interacting with the Upbit API, and the text
//! each one displays.
use vstd::prelude::*;

verus! {

/// Represents all possible errors that can occur when interacting with the Upbit API.
#[derive(Debug)]
pub enum Errors {
    /// Invalid API key or signature
    InvalidApiKey(),
    /// Network / HTTP level error
    HttpError(String),
    /// An error returned by the Upbit API
    ApiError(ApiError),
    /// A general error with a descriptive message
    Error(String),
}

/// Upbit API error response body.
#[derive(Debug, Clone)]
pub struct ApiError {
    pub name: String,
    pub message: String,
}

/// Error response wrapper, as the Upbit API sends it.
#[derive(Debug)]
pub struct ErrorResponse {
    pub error: ApiError,
}

/// A failure of the HTTP transport beneath the API client, with what it reports.
#[derive(Debug)]
pub enum HttpFailure {
    /// The connection failed
    Network(String),
    /// The request timed out
    Timeout,
    /// The request URL could not be used
    InvalidUrl(String),
    /// The response body could not be decoded
    Decode(String),
    /// The server answered with a non-success status
    Http { status: u16, body: String },
    /// Any other failure
    Unknown(String),
}

/// The character of a decimal digit.
pub open spec fn digit_char(d: nat) -> char {
    if d == 0 {
        '0'
    } else if d == 1 {
        '1'
    } else if d == 2 {
        '2'
    } else if d == 3 {
        '3'
    } else if d == 4 {
        '4'
    } else if d == 5 {
        '5'
    } else if d == 6 {
        '6'
    } else if d == 7 {
        '7'
    } else if d == 8 {
        '8'
    } else {
        '9'
    }
}

/// The decimal representation of `n`, without leading zeros.
pub open spec fn decimal(n: nat) -> Seq<char>
    decreases n,
{
    if n < 10 {
        seq![digit_char(n)]
    } else {
        decimal(n / 10).push(digit_char(n % 10))
    }
}

/// The text of a single decimal digit.
fn digit_str(d: u16) -> (s: &'static str)
    requires
        d < 10,
    ensures
        s@ == seq![digit_char(d as nat)],
{
    if d == 0 {
        proof { reveal_strlit("0"); }
        "0"
    } else if d == 1 {
        proof { reveal_strlit("1"); }
        "1"
    } else if d == 2 {
        proof { reveal_strlit("2"); }
        "2"
    } else if d == 3 {
        proof { reveal_strlit("3"); }
        "3"
    } else if d == 4 {
        proof { reveal_strlit("4"); }
        "4"
    } else if d == 5 {
        proof { reveal_strlit("5"); }
        "5"
    } else if d == 6 {
        proof { reveal_strlit("6"); }
        "6"
    } else if d == 7 {
        proof { reveal_strlit("7"); }
        "7"
    } else if d == 8 {
        proof { reveal_strlit("8"); }
        "8"
    } else {
        proof { reveal_strlit("9"); }
        "9"
    }
}

/// Appends the decimal representation of `n` to `s`.
fn push_decimal(s: &mut String, n: u16)
    ensures
        final(s)@ == old(s)@ + decimal(n as nat),
    decreases n,
{
    if n < 10 {
        s.append(digit_str(n));
    } else {
        push_decimal(s, n / 10);
        s.append(digit_str(n % 10));
        proof {
            assert(old(s)@ + decimal((n / 10) as nat) + seq![digit_char((n % 10) as nat)] =~= old(s)@
                + decimal(n as nat));
        }
    }
}

impl ApiError {
    /// The text that the error displays: `name: message`.
    pub open spec fn display(self) -> Seq<char> {
        self.name@ + ": "@ + self.message@
    }

    /// Renders the error as it displays: its name, a colon, and its message.
    pub fn to_string(&self) -> (s: String)
        ensures
            s@ == self.display(),
    {
        let mut s = self.name.clone();
        s.append(": ");
        s.append(self.message.as_str());
        s
    }
}

impl HttpFailure {
    /// The message an [`Errors::HttpError`] carries for this failure.
    pub open spec fn summary(self) -> Seq<char> {
        match self {
            HttpFailure::Network(e) => "network: "@ + e@,
            HttpFailure::Timeout => "timeout"@,
            HttpFailure::InvalidUrl(u) => "invalid url: "@ + u@,
            HttpFailure::Decode(e) => "decode: "@ + e@,
            HttpFailure::Http { status, body } => "status "@ + decimal(status as nat) + ": "@
                + body@,
            HttpFailure::Unknown(e) => "unknown: "@ + e@,
        }
    }
}

impl Errors {
    /// The text that the error displays.
    pub open spec fn display(self) -> Seq<char> {
        match self {
            Errors::InvalidApiKey() => "Invalid API key or signature"@,
            Errors::HttpError(e) => "HTTP error: "@ + e@,
            Errors::ApiError(e) => "API error: "@ + e.display(),
            Errors::Error(m) => "Error: "@ + m@,
        }
    }

    /// Renders the error as it displays.
    pub fn to_string(&self) -> (s: String)
        ensures
            s@ == self.display(),
    {
        match self {
            Errors::InvalidApiKey() => String::from_str("Invalid API key or signature"),
            Errors::HttpError(e) => String::from_str("HTTP error: ").concat(e.as_str()),
            Errors::ApiError(e) => {
                let inner = e.to_string();
                String::from_str("API error: ").concat(inner.as_str())
            },
            Errors::Error(m) => String::from_str("Error: ").concat(m.as_str()),
        }
    }

    /// Converts a transport failure into an [`Errors::HttpError`] that describes it.
    pub fn from_http_failure(err: HttpFailure) -> (r: Errors)
        ensures
            r matches Errors::HttpError(m) && m@ == err.summary(),
    {
        let ghost expected = err.summary();
        let msg = match err {
            HttpFailure::Network(e) => String::from_str("network: ").concat(e.as_str()),
            HttpFailure::Timeout => String::from_str("timeout"),
            HttpFailure::InvalidUrl(u) => String::from_str("invalid url: ").concat(u.as_str()),
            HttpFailure::Decode(e) => String::from_str("decode: ").concat(e.as_str()),
            HttpFailure::Http { status, body } => {
                let mut s = String::from_str("status ");
                push_decimal(&mut s, status);
                s.append(": ");
                s.append(body.as_str());
                s
            },
            HttpFailure::Unknown(e) => String::from_str("unknown: ").concat(e.as_str()),
        };
        assert(msg@ == expected);
        Errors::HttpError(msg)
    }

    /// The error that a JSON failure with the given description becomes.
    pub fn from_json_error_text(text: &str) -> (r: Errors)
        ensures
            r matches Errors::Error(m) && m@ == "JSON error: "@ + text@,
    {
        Errors::Error(String::from_str("JSON error: ").concat(text))
    }

    /// Converts a JSON (de)serialization failure into an [`Errors::Error`] whose
    /// message starts with `JSON error: ` and goes on with the failure's description.
    pub fn from_json_error(err: serde_json::Error) -> (r: Errors)
        ensures
            r matches Errors::Error(m) && "JSON error: "@.is_prefix_of(m@),
    {
        let text = json_error_text(&err);
        let r = Errors::from_json_error_text(text.as_str());
        proof {
            assert(r->Error_0@.subrange(0, "JSON error: "@.len() as int) =~= "JSON error: "@);
        }
        r
    }
}

/// Declares `serde_json::Error`, which Verus sees as an opaque value.
#[verifier::external_type_specification]
#[verifier::external_body]
pub struct ExJsonError(serde_json::Error);

/// Renders a `serde_json::Error` through its `Display` impl (`format!("{}", err)`):
/// the failure's description, followed by ` at line L column C` where the
/// position is known. Nothing is claimed of the text, which Verus cannot read
/// from the opaque error value.
#[verifier::external_body]
fn json_error_text(err: &serde_json::Error) -> String {
    format!("{}", err)
}

} // verus!
