//! The error domain of the flow engine.

use vstd::prelude::*;
use vstd::string::StringExecFns;

use crate::numeric::{dec_digits, u64_to_string};

verus! {

/// Everything that can go wrong while building or running a flow.
///
/// `Timeout` and `Terminate` are not failures: the first reports that a wait
/// elapsed with nothing to do, the second that the flow shut down
/// cooperatively.
#[derive(Debug)]
pub enum Error {
    /// A connection names a node that is not in the graph.
    InvalidNodeName(String),
    /// A connection uses a port index at or beyond the node's declared count.
    InvalidPortIndex(String, usize),
    /// Waiting on the event queue elapsed without an event.
    Timeout,
    /// The flow shut down cooperatively.
    Terminate(String),
    /// No conversion could be resolved, or a conversion failed on a message.
    ConversionError(String),
}

/// Mathematical view of an `Error`.
pub enum ErrorV {
    InvalidNodeName(Seq<char>),
    InvalidPortIndex(Seq<char>, usize),
    Timeout,
    Terminate(Seq<char>),
    ConversionError(Seq<char>),
}

impl View for Error {
    type V = ErrorV;

    open spec fn view(&self) -> ErrorV {
        match *self {
            Error::InvalidNodeName(ref n) => ErrorV::InvalidNodeName(n@),
            Error::InvalidPortIndex(ref n, i) => ErrorV::InvalidPortIndex(n@, i),
            Error::Timeout => ErrorV::Timeout,
            Error::Terminate(ref r) => ErrorV::Terminate(r@),
            Error::ConversionError(ref r) => ErrorV::ConversionError(r@),
        }
    }
}

/// The text shown for an error.
pub open spec fn error_display(e: ErrorV) -> Seq<char> {
    match e {
        ErrorV::InvalidNodeName(n) => "Invalid node name: "@ + n,
        ErrorV::InvalidPortIndex(n, i) => "Invalid port index ("@ + n + "."@ + dec_digits(
            i as nat,
        ) + ")"@,
        ErrorV::Timeout => "timed out"@,
        ErrorV::Terminate(r) => "Execution terminated: "@ + r,
        ErrorV::ConversionError(r) => "Conversion error: "@ + r,
    }
}

impl Error {
    pub fn to_display_string(&self) -> (r: String)
        ensures
            r@ == error_display(self@),
    {
        match self {
            Error::InvalidNodeName(n) => {
                let mut s = "Invalid node name: ".to_owned();
                s.append(n.as_str());
                s
            },
            Error::InvalidPortIndex(n, i) => {
                let mut s = "Invalid port index (".to_owned();
                s.append(n.as_str());
                s.append(".");
                let digits = u64_to_string(*i as u64);
                s.append(digits.as_str());
                s.append(")");
                s
            },
            Error::Timeout => "timed out".to_owned(),
            Error::Terminate(r) => {
                let mut s = "Execution terminated: ".to_owned();
                s.append(r.as_str());
                s
            },
            Error::ConversionError(r) => {
                let mut s = "Conversion error: ".to_owned();
                s.append(r.as_str());
                s
            },
        }
    }
}

/// A construction-time configuration problem: a node option was missing or
/// held a value of the wrong kind.  Options providers are host-side
/// adapters, so this type carries no further detail here.
#[derive(Clone, Debug)]
pub struct NodeOptionsError {
}

} // verus!
