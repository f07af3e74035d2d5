//! What can go wrong between the frontend, its backend and its clients.

use vstd::prelude::*;

use crate::text;

verus! {

/// Why statistics of the backend could not be read.
#[derive(Debug, PartialEq, Eq)]
pub enum IpcError<S = String> {
    StatsFormat(S),
}

impl View for IpcError<String> {
    type V = IpcError<Seq<char>>;

    open spec fn view(&self) -> IpcError<Seq<char>> {
        match self {
            IpcError::StatsFormat(e) => IpcError::StatsFormat(e@),
        }
    }
}

impl IpcError<String> {
    /// The wording of the error.
    pub fn message(&self) -> (r: String)
        ensures
            r@ == (match self@ {
                IpcError::StatsFormat(e) => "invalid stats segment data: "@ + e,
            }),
    {
        match self {
            IpcError::StatsFormat(e) => text::cat("invalid stats segment data: ", e.as_str()),
        }
    }
}

/// Why a call of a client failed.
#[derive(Debug, PartialEq, Eq)]
pub enum CtlError<S = String> {
    /// There was no connection.
    Connect(S),
    /// The request could not be made.
    Request(S),
    /// The other side refused.
    Backend { code: i32, message: S },
    /// The connection broke.
    Io(S),
    /// The answer was none.
    Protocol(S),
}

pub type CtlErrorView = CtlError<Seq<char>>;

impl View for CtlError<String> {
    type V = CtlErrorView;

    open spec fn view(&self) -> CtlErrorView {
        match self {
            CtlError::Connect(e) => CtlError::Connect(e@),
            CtlError::Request(e) => CtlError::Request(e@),
            CtlError::Backend { code, message } => CtlError::Backend {
                code: *code,
                message: message@,
            },
            CtlError::Io(e) => CtlError::Io(e@),
            CtlError::Protocol(e) => CtlError::Protocol(e@),
        }
    }
}

impl CtlError<Seq<char>> {
    /// The wording of the error.
    pub open spec fn text(self) -> Seq<char> {
        match self {
            CtlError::Connect(e) => "connection failed: "@ + e,
            CtlError::Request(e) => "request failed: "@ + e,
            CtlError::Backend { code, message } => "backend returned error: "@
                + text::signed_decimal(code as int) + " "@ + message,
            CtlError::Io(e) => "I/O error: "@ + e,
            CtlError::Protocol(e) => "protocol error: "@ + e,
        }
    }
}

impl CtlError<String> {
    /// The wording of the error.
    pub fn message(&self) -> (r: String)
        ensures
            r@ == self@.text(),
    {
        match self {
            CtlError::Connect(e) => text::cat("connection failed: ", e.as_str()),
            CtlError::Request(e) => text::cat("request failed: ", e.as_str()),
            CtlError::Backend { code, message } => {
                let mut r = "backend returned error: ".to_owned();
                text::push_signed(&mut r, *code);
                r.append(" ");
                r.append(message.as_str());
                r
            },
            CtlError::Io(e) => text::cat("I/O error: ", e.as_str()),
            CtlError::Protocol(e) => text::cat("protocol error: ", e.as_str()),
        }
    }
}

/// The wording of an error starts with what failed, and ends with the reason in full.
pub proof fn errors_tell_their_reason(e: CtlErrorView)
    ensures
        e matches CtlError::Connect(s) ==> e.text()[0] == 'c' && e.text().skip(19) == s,
        e matches CtlError::Request(s) ==> e.text()[0] == 'r' && e.text().skip(16) == s,
        e matches CtlError::Io(s) ==> e.text()[0] == 'I' && e.text().skip(11) == s,
        e matches CtlError::Protocol(s) ==> e.text()[0] == 'p' && e.text().skip(16) == s,
        e matches CtlError::Backend { code, message } ==> e.text()[0] == 'b' && e.text().skip(24)
            == text::signed_decimal(code as int) + seq![' '] + message,
{
    reveal_strlit("connection failed: ");
    reveal_strlit("request failed: ");
    reveal_strlit("backend returned error: ");
    reveal_strlit(" ");
    reveal_strlit("I/O error: ");
    reveal_strlit("protocol error: ");
    assert(" "@ =~= seq![' ']);
}

/// The view of an error tells its kind, its code and its reason.
pub proof fn error_is_told_by_field(e: CtlError)
    ensures
        match e {
            CtlError::Connect(s) => e@ == CtlError::Connect(s@),
            CtlError::Request(s) => e@ == CtlError::Request(s@),
            CtlError::Backend { code, message } => {
                &&& e@ matches CtlError::Backend { code: c, message: m }
                &&& c == code
                &&& m == message@
            },
            CtlError::Io(s) => e@ == CtlError::Io(s@),
            CtlError::Protocol(s) => e@ == CtlError::Protocol(s@),
        },
{
}

} // verus!
