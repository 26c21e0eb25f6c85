//! The library's error type.
use vstd::prelude::*;

use crate::text::{append_chars, append_str, from_chars, to_chars};
use crate::urls::{decimal, decimal_exec};

verus! {

/// Why an operation failed. Errors of outside libraries are carried as their
/// messages.
#[derive(Debug)]
pub enum DocsiteError {
    Request { url: String, message: String },
    HttpStatus { url: String, status: u16 },
    Io(String),
    Url(String),
    Json(String),
    DetectionFailed(String),
    BrowserUnavailable(String),
    /// The HTML of the page at this URL is of a shape the HTML-to-Markdown
    /// converter cannot take.
    Unconvertible(String),
}

/// An error as plain values.
pub enum DocsiteErrorView {
    Request { url: Seq<char>, message: Seq<char> },
    HttpStatus { url: Seq<char>, status: u16 },
    Io(Seq<char>),
    Url(Seq<char>),
    Json(Seq<char>),
    DetectionFailed(Seq<char>),
    BrowserUnavailable(Seq<char>),
    Unconvertible(Seq<char>),
}

impl View for DocsiteError {
    type V = DocsiteErrorView;

    open spec fn view(&self) -> DocsiteErrorView {
        match self {
            DocsiteError::Request { url, message } => DocsiteErrorView::Request {
                url: url@,
                message: message@,
            },
            DocsiteError::HttpStatus { url, status } => DocsiteErrorView::HttpStatus {
                url: url@,
                status: *status,
            },
            DocsiteError::Io(m) => DocsiteErrorView::Io(m@),
            DocsiteError::Url(m) => DocsiteErrorView::Url(m@),
            DocsiteError::Json(m) => DocsiteErrorView::Json(m@),
            DocsiteError::DetectionFailed(m) => DocsiteErrorView::DetectionFailed(m@),
            DocsiteError::BrowserUnavailable(m) => DocsiteErrorView::BrowserUnavailable(m@),
            DocsiteError::Unconvertible(m) => DocsiteErrorView::Unconvertible(m@),
        }
    }
}

/// The human-readable message of an error.
pub open spec fn error_message(e: DocsiteErrorView) -> Seq<char> {
    match e {
        DocsiteErrorView::Request { url, message } => "request failed for "@ + url + ": "@ + message,
        DocsiteErrorView::HttpStatus { url, status } => "unexpected status "@ + decimal(
            status as nat,
        ) + " for "@ + url,
        DocsiteErrorView::Io(m) => "I/O error: "@ + m,
        DocsiteErrorView::Url(m) => "URL parse error: "@ + m,
        DocsiteErrorView::Json(m) => "JSON error: "@ + m,
        DocsiteErrorView::DetectionFailed(m) => "site detection failed for "@ + m,
        DocsiteErrorView::BrowserUnavailable(m) => "browser fallback requested but unavailable: "@
            + m,
        DocsiteErrorView::Unconvertible(m) => "HTML cannot be converted to Markdown: "@ + m,
    }
}

impl DocsiteError {
    /// The error's message (what its `Display` shows).
    pub fn message(&self) -> (r: String)
        ensures
            r@ == error_message(self@),
    {
        let v = match self {
            DocsiteError::Request { url, message } => {
                let mut v = to_chars("request failed for ");
                append_str(&mut v, url.as_str());
                append_str(&mut v, ": ");
                append_str(&mut v, message.as_str());
                v
            },
            DocsiteError::HttpStatus { url, status } => {
                let mut v = to_chars("unexpected status ");
                let d = decimal_exec(*status as u64);
                append_chars(&mut v, d.as_slice());
                append_str(&mut v, " for ");
                append_str(&mut v, url.as_str());
                v
            },
            DocsiteError::Io(m) => {
                let mut v = to_chars("I/O error: ");
                append_str(&mut v, m.as_str());
                v
            },
            DocsiteError::Url(m) => {
                let mut v = to_chars("URL parse error: ");
                append_str(&mut v, m.as_str());
                v
            },
            DocsiteError::Json(m) => {
                let mut v = to_chars("JSON error: ");
                append_str(&mut v, m.as_str());
                v
            },
            DocsiteError::DetectionFailed(m) => {
                let mut v = to_chars("site detection failed for ");
                append_str(&mut v, m.as_str());
                v
            },
            DocsiteError::BrowserUnavailable(m) => {
                let mut v = to_chars("browser fallback requested but unavailable: ");
                append_str(&mut v, m.as_str());
                v
            },
            DocsiteError::Unconvertible(m) => {
                let mut v = to_chars("HTML cannot be converted to Markdown: ");
                append_str(&mut v, m.as_str());
                v
            },
        };
        from_chars(v.as_slice())
    }
}

} // verus!
