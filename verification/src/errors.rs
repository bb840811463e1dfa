//! The service's error type, its message and the HTTP answer it maps to.

use vstd::prelude::*;

verus! {

/// An error of the service; each carries a detail text.
#[derive(Debug)]
pub enum AppError {
    RpcError(String),
    InvalidAddress(String),
    NotFound(String),
    ServerError(String),
}

/// An error as a value: its kind and the detail text it carries.
pub enum AppErrorView {
    RpcError(Seq<char>),
    InvalidAddress(Seq<char>),
    NotFound(Seq<char>),
    ServerError(Seq<char>),
}

impl View for AppError {
    type V = AppErrorView;

    open spec fn view(&self) -> AppErrorView {
        match self {
            AppError::RpcError(m) => AppErrorView::RpcError(m@),
            AppError::InvalidAddress(m) => AppErrorView::InvalidAddress(m@),
            AppError::NotFound(m) => AppErrorView::NotFound(m@),
            AppError::ServerError(m) => AppErrorView::ServerError(m@),
        }
    }
}

impl AppErrorView {
    /// The text the error displays: a prefix naming its kind, then the detail.
    pub open spec fn message(self) -> Seq<char> {
        match self {
            AppErrorView::RpcError(m) => "RPC error: "@ + m,
            AppErrorView::InvalidAddress(m) => "Invalid address: "@ + m,
            AppErrorView::NotFound(m) => "Not found: "@ + m,
            AppErrorView::ServerError(m) => "Server error: "@ + m,
        }
    }

    /// The HTTP status an error is answered with.
    pub open spec fn status(self) -> u16 {
        match self {
            AppErrorView::InvalidAddress(_) => 400,
            AppErrorView::NotFound(_) => 404,
            AppErrorView::RpcError(_) => 503,
            AppErrorView::ServerError(_) => 500,
        }
    }
}

/// The JSON body that carries an error's message to the client.
#[derive(Debug)]
pub struct ErrorResponse {
    pub error: String,
}

impl AppError {
    /// The text the error displays.
    pub fn message(&self) -> (s: String)
        ensures
            s@ == self@.message(),
    {
        let (prefix, detail) = match self {
            AppError::RpcError(m) => ("RPC error: ", m),
            AppError::InvalidAddress(m) => ("Invalid address: ", m),
            AppError::NotFound(m) => ("Not found: ", m),
            AppError::ServerError(m) => ("Server error: ", m),
        };
        let mut s = String::from_str(prefix);
        s.append(detail.as_str());
        s
    }

    /// The HTTP status code the error is answered with: 400 for an invalid
    /// address, 404 for something not found, 503 when the node failed and
    /// 500 for any other server error.
    pub fn status_code(&self) -> (code: u16)
        ensures
            code == self@.status(),
    {
        match self {
            AppError::InvalidAddress(_) => 400,
            AppError::NotFound(_) => 404,
            AppError::RpcError(_) => 503,
            AppError::ServerError(_) => 500,
        }
    }

    /// The body of the answer to a failed request: the error's message.
    pub fn error_response(&self) -> (r: ErrorResponse)
        ensures
            r.error@ == self@.message(),
    {
        ErrorResponse { error: self.message() }
    }
}

} // verus!
