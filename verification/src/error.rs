//! Failures that an exchange can end with.

use vstd::prelude::*;
use vstd::string::StringExecFns;

verus! {

/// Lowest code that the callback-driven system HTTP stack reserves for itself.
pub const HTTP_STACK_ERROR_FIRST: u32 = 12001;

/// Highest code that the callback-driven system HTTP stack reserves for itself.
pub const HTTP_STACK_ERROR_LAST: u32 = 12156;

/// The system HTTP stack's code for a URL that it cannot parse.
pub const HTTP_STACK_INVALID_URL: u32 = 12005;

/// The system HTTP stack's code for a URL whose scheme it does not know.
pub const HTTP_STACK_UNRECOGNIZED_SCHEME: u32 = 12006;

/// The URL-loading session's code for a URL that it cannot parse.
pub const SESSION_BAD_URL: i64 = -1000;

/// The URL-loading session's code for a URL whose scheme it does not support.
pub const SESSION_UNSUPPORTED_URL: i64 = -1002;

/// Why an exchange did not end with a response.
#[derive(Debug, Clone, PartialEq, Eq)]
pub enum Error {
    /// The native transport failed: its code, and its own words for it.
    Transport { code: i64, description: String },
    /// A received header line did not have the form of a header field.
    InvalidHeader,
    /// The transport cannot parse the URL or does not support its scheme.
    UnsupportedUrl,
}

/// Whether a native error code belongs to the system HTTP stack rather than
/// to the operating system at large.
pub open spec fn spec_is_http_stack_code(code: u32) -> bool {
    HTTP_STACK_ERROR_FIRST <= code && code <= HTTP_STACK_ERROR_LAST
}

/// Whether a native error code belongs to the system HTTP stack rather than
/// to the operating system at large: the two keep their messages in
/// different places.
pub fn is_http_stack_code(code: u32) -> (r: bool)
    ensures
        r == spec_is_http_stack_code(code),
{
    code >= HTTP_STACK_ERROR_FIRST && code <= HTTP_STACK_ERROR_LAST
}

/// The failure that a native transfer error stands for, given what the
/// transport says of it: whether it blames the URL's scheme, whether it
/// blames the URL's form, its code and its description.
pub open spec fn spec_transfer_failure(
    unsupported: bool,
    malformed: bool,
    code: u32,
    description: Seq<char>,
) -> ErrorView {
    if unsupported || malformed {
        ErrorView::UnsupportedUrl
    } else {
        ErrorView::Transport { code: code as i64, description }
    }
}

/// The failure that a code of the system HTTP stack stands for.
pub open spec fn spec_system_failure(code: u32, description: Seq<char>) -> ErrorView {
    if code == HTTP_STACK_INVALID_URL || code == HTTP_STACK_UNRECOGNIZED_SCHEME {
        ErrorView::UnsupportedUrl
    } else {
        ErrorView::Transport { code: code as i64, description }
    }
}

/// The failure that an error of the OS-managed URL-loading session stands for.
pub open spec fn spec_session_failure(
    code: i64,
    domain: Seq<char>,
    description: Seq<char>,
) -> ErrorView {
    if code == SESSION_BAD_URL || code == SESSION_UNSUPPORTED_URL {
        ErrorView::UnsupportedUrl
    } else {
        ErrorView::Transport { code, description: domain + " "@ + description }
    }
}

/// An `Error`, its text taken as a sequence of characters.
pub ghost enum ErrorView {
    Transport { code: i64, description: Seq<char> },
    InvalidHeader,
    UnsupportedUrl,
}

impl View for Error {
    type V = ErrorView;

    open spec fn view(&self) -> ErrorView {
        match self {
            Error::Transport { code, description } => ErrorView::Transport {
                code: *code,
                description: description@,
            },
            Error::InvalidHeader => ErrorView::InvalidHeader,
            Error::UnsupportedUrl => ErrorView::UnsupportedUrl,
        }
    }
}

impl Error {
    /// The failure that a native transfer error stands for, given what the
    /// transport says of it. An error that blames the URL, its scheme or its
    /// form, is `UnsupportedUrl`; any other is `Transport`, with the code and
    /// the description kept.
    pub fn transfer_failure(
        unsupported: bool,
        malformed: bool,
        code: u32,
        description: String,
    ) -> (r: Error)
        ensures
            r@ == spec_transfer_failure(unsupported, malformed, code, description@),
    {
        if unsupported || malformed {
            Error::UnsupportedUrl
        } else {
            Error::Transport { code: code as i64, description }
        }
    }

    /// The failure that a code of the system HTTP stack stands for: the two
    /// codes for a URL that it cannot use are `UnsupportedUrl`, any other is
    /// `Transport`.
    pub fn from_system_code(code: u32, description: String) -> (r: Error)
        ensures
            r@ == spec_system_failure(code, description@),
    {
        if code == HTTP_STACK_INVALID_URL || code == HTTP_STACK_UNRECOGNIZED_SCHEME {
            Error::UnsupportedUrl
        } else {
            Error::Transport { code: code as i64, description }
        }
    }

    /// The failure that an error of the OS-managed URL-loading session stands
    /// for: its two codes for a URL that it cannot use are `UnsupportedUrl`;
    /// any other is `Transport`, described by the error's domain, a space and
    /// the error's own description.
    pub fn from_session_error(code: i64, domain: &str, description: &str) -> (r: Error)
        ensures
            r@ == spec_session_failure(code, domain@, description@),
    {
        if code == SESSION_BAD_URL || code == SESSION_UNSUPPORTED_URL {
            Error::UnsupportedUrl
        } else {
            let mut text = domain.to_owned();
            text.append(" ");
            text.append(description);
            Error::Transport { code, description: text }
        }
    }

    /// The words for this failure: the transport's own for a transport
    /// failure, a fixed sentence for the others.
    pub fn describe(&self) -> (r: String)
        ensures
            r@ == match self@ {
                ErrorView::Transport { code, description } => description,
                ErrorView::InvalidHeader => "Received Header had invalid format"@,
                ErrorView::UnsupportedUrl => "URL is malformed or its scheme is not supported"@,
            },
    {
        match self {
            Error::Transport { code, description } => description.clone(),
            Error::InvalidHeader => "Received Header had invalid format".to_owned(),
            Error::UnsupportedUrl => "URL is malformed or its scheme is not supported".to_owned(),
        }
    }
}

} // verus!
