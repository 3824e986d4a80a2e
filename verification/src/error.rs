//! Why a tick of the indexer ended early.

use vstd::prelude::*;
use crate::hex::DecodeError;

verus! {

/// A failure that ends the running tick, as a mathematical value.
pub enum TickErrorView {
    Transport { status: Option<int> },
    Protocol,
    Rpc { code: int, message: Seq<char> },
    Decode { input: Seq<char> },
}

/// A failure that ends the running tick. The next tick starts as usual.
#[derive(Debug)]
pub enum TickError {
    /// The endpoint was not reached (`status` is `None`), or it answered
    /// with an HTTP status that is no success.
    Transport { status: Option<u16> },
    /// The answer was no JSON document, or lacked a member that was
    /// expected, or was none that was waited for.
    Protocol,
    /// The endpoint answered with a JSON-RPC error object.
    Rpc { code: i64, message: String },
    /// The block's timestamp is no hex quantity, or no instant of the
    /// calendar.
    Decode(DecodeError),
}

impl View for TickError {
    type V = TickErrorView;

    open spec fn view(&self) -> TickErrorView {
        match self {
            TickError::Transport { status } => TickErrorView::Transport {
                status: match status {
                    Some(s) => Some(*s as int),
                    None => None,
                },
            },
            TickError::Protocol => TickErrorView::Protocol,
            TickError::Rpc { code, message } => TickErrorView::Rpc {
                code: *code as int,
                message: message@,
            },
            TickError::Decode(e) => TickErrorView::Decode { input: e.input@ },
        }
    }
}

} // verus!
