//! The library's errors.
use crate::text::{decimal, push_decimal};
use vstd::prelude::*;

verus! {

/// What can go wrong in a call to Kite Connect.
#[derive(Debug, Clone, PartialEq, Eq)]
pub enum KiteError {
    Http(String),
    Api { status: u16, message: String },
    SessionExpired,
    WebSocket(String),
    Serialization(String),
    Connection(String),
}

/// The contents of a `KiteError`.
pub enum KiteErrorView {
    Http(Seq<char>),
    Api { status: u16, message: Seq<char> },
    SessionExpired,
    WebSocket(Seq<char>),
    Serialization(Seq<char>),
    Connection(Seq<char>),
}

impl View for KiteError {
    type V = KiteErrorView;

    open spec fn view(&self) -> KiteErrorView {
        match self {
            KiteError::Http(s) => KiteErrorView::Http(s@),
            KiteError::Api { status, message } => KiteErrorView::Api {
                status: *status,
                message: message@,
            },
            KiteError::SessionExpired => KiteErrorView::SessionExpired,
            KiteError::WebSocket(s) => KiteErrorView::WebSocket(s@),
            KiteError::Serialization(s) => KiteErrorView::Serialization(s@),
            KiteError::Connection(s) => KiteErrorView::Connection(s@),
        }
    }
}

/// The contents of the outcome of a check.
pub open spec fn verdict_view(r: Result<(), KiteError>) -> Result<(), KiteErrorView> {
    match r {
        Ok(()) => Ok(()),
        Err(e) => Err(e@),
    }
}

/// The text that describes an error.
pub open spec fn error_text(e: KiteErrorView) -> Seq<char> {
    match e {
        KiteErrorView::Http(s) => "HTTP error: "@ + s,
        KiteErrorView::Api { status, message } => "Kite API error: "@ + decimal(status as nat)
            + " \u{2014} "@ + message,
        KiteErrorView::SessionExpired => "Session expired (403)"@,
        KiteErrorView::WebSocket(s) => "WebSocket error: "@ + s,
        KiteErrorView::Serialization(s) => "Serialization error: "@ + s,
        KiteErrorView::Connection(s) => "Connection error: "@ + s,
    }
}

impl KiteError {
    /// The text that describes the error.
    pub fn message(&self) -> (text: String)
        ensures
            text@ == error_text(self@),
    {
        match self {
            KiteError::Http(s) => {
                let mut text = "HTTP error: ".to_string();
                text.append(s.as_str());
                text
            },
            KiteError::Api { status, message } => {
                let mut text = "Kite API error: ".to_string();
                push_decimal(&mut text, *status as u64);
                text.append(" \u{2014} ");
                text.append(message.as_str());
                text
            },
            KiteError::SessionExpired => "Session expired (403)".to_string(),
            KiteError::WebSocket(s) => {
                let mut text = "WebSocket error: ".to_string();
                text.append(s.as_str());
                text
            },
            KiteError::Serialization(s) => {
                let mut text = "Serialization error: ".to_string();
                text.append(s.as_str());
                text
            },
            KiteError::Connection(s) => {
                let mut text = "Connection error: ".to_string();
                text.append(s.as_str());
                text
            },
        }
    }
}

} // verus!
