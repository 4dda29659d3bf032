//! The library's error type.
use vstd::prelude::*;

use crate::text::{concat, dec, fmt_u64, to_string};

verus! {

/// What went wrong.
#[derive(Debug)]
pub enum AppError {
    Provider(String),
    Tool(String),
    PermissionDenied(String),
    MaxTurnsExceeded(usize),
    BadRequest(String),
    Internal(String),
    Interrupted,
}

pub enum AppErrorView {
    Provider(Seq<char>),
    Tool(Seq<char>),
    PermissionDenied(Seq<char>),
    MaxTurnsExceeded(usize),
    BadRequest(Seq<char>),
    Internal(Seq<char>),
    Interrupted,
}

impl View for AppError {
    type V = AppErrorView;

    open spec fn view(&self) -> AppErrorView {
        match self {
            AppError::Provider(m) => AppErrorView::Provider(m@),
            AppError::Tool(m) => AppErrorView::Tool(m@),
            AppError::PermissionDenied(m) => AppErrorView::PermissionDenied(m@),
            AppError::MaxTurnsExceeded(n) => AppErrorView::MaxTurnsExceeded(*n),
            AppError::BadRequest(m) => AppErrorView::BadRequest(m@),
            AppError::Internal(m) => AppErrorView::Internal(m@),
            AppError::Interrupted => AppErrorView::Interrupted,
        }
    }
}

/// The text that an error shows.
pub open spec fn error_text(e: AppErrorView) -> Seq<char> {
    match e {
        AppErrorView::Provider(m) => "provider error: "@ + m,
        AppErrorView::Tool(m) => "tool error: "@ + m,
        AppErrorView::PermissionDenied(m) => "permission denied: "@ + m,
        AppErrorView::MaxTurnsExceeded(n) => "max turns exceeded: "@ + dec(n as nat),
        AppErrorView::BadRequest(m) => "bad request: "@ + m,
        AppErrorView::Internal(m) => "internal error: "@ + m,
        AppErrorView::Interrupted => "interrupted"@,
    }
}

impl AppError {
    /// The text that the error shows.
    pub fn message(&self) -> (r: String)
        ensures
            r@ == error_text(self@),
    {
        match self {
            AppError::Provider(m) => concat("provider error: ", m.as_str()),
            AppError::Tool(m) => concat("tool error: ", m.as_str()),
            AppError::PermissionDenied(m) => concat("permission denied: ", m.as_str()),
            AppError::MaxTurnsExceeded(n) => {
                let t = fmt_u64(*n as u64);
                concat("max turns exceeded: ", t.as_str())
            },
            AppError::BadRequest(m) => concat("bad request: ", m.as_str()),
            AppError::Internal(m) => concat("internal error: ", m.as_str()),
            AppError::Interrupted => to_string("interrupted"),
        }
    }
}

/// The HTTP status an error is answered with: a bad request is the client's
/// fault (400), a denied permission is forbidden (403), anything else is the
/// server's (500).
pub open spec fn status_of(e: AppErrorView) -> u16 {
    match e {
        AppErrorView::BadRequest(_) => 400,
        AppErrorView::PermissionDenied(_) => 403,
        _ => 500,
    }
}

impl AppError {
    /// The HTTP status the error is answered with.
    pub fn status_code(&self) -> (r: u16)
        ensures
            r == status_of(self@),
    {
        match self {
            AppError::BadRequest(_) => 400,
            AppError::PermissionDenied(_) => 403,
            _ => 500,
        }
    }
}

} // verus!
