//! The failures of a lookup or of an evaluation.

use vstd::prelude::*;
use vstd::string::*;

verus! {

/// Why a lookup or an evaluation failed. Each variant but `Non` carries the
/// text or the name that could not be resolved.
#[derive(Debug, PartialEq, Eq)]
pub enum Errors {
    /// A failure of no known kind.
    Non,
    /// No registered token accepted the text, or the one that accepted it
    /// produced no value.
    TokenNotMatched(String),
    /// A call names a function that is not registered.
    FunctionNotFound(String),
    /// No handler is registered under this key.
    KeyNotFound(String),
    /// The name is bound neither here nor in the nested scope.
    MemoryNotFound(String),
    /// The name is not bound here, and there is no nested scope.
    MemoryNotDefined(String),
    /// The text looks like a call, but no name and arguments can be taken
    /// from it.
    MalformedCall(String),
}

/// The mathematical content of an [`Errors`].
pub ghost enum Fault {
    Unknown,
    TokenNotMatched(Seq<char>),
    FunctionNotFound(Seq<char>),
    KeyNotFound(Seq<char>),
    MemoryNotFound(Seq<char>),
    MemoryNotDefined(Seq<char>),
    MalformedCall(Seq<char>),
}

impl Fault {
    /// The label under which a failure of this kind is reported.
    pub open spec fn label(self) -> Seq<char> {
        match self {
            Fault::Unknown => "ERRORS::UNKNOWN"@,
            Fault::TokenNotMatched(_) => "ERRORS::TOKEN_NOT_FOUND"@,
            Fault::FunctionNotFound(_) => "ERRORS::FUNCTION_NOT_FOUND"@,
            Fault::KeyNotFound(_) => "ERRORS::KEY_NOT_FOUND"@,
            Fault::MemoryNotFound(_) => "ERRORS::MEMORY_NOT_FOUND"@,
            Fault::MemoryNotDefined(_) => "ERRORS::MEMORY_NOT_DEFINED"@,
            Fault::MalformedCall(_) => "ERRORS::MALFORMED_CALL"@,
        }
    }

    /// The text or name that the failure is about.
    pub open spec fn message(self) -> Seq<char> {
        match self {
            Fault::Unknown => "UNKNOWN ERROR"@,
            Fault::TokenNotMatched(m) => m,
            Fault::FunctionNotFound(m) => m,
            Fault::KeyNotFound(m) => m,
            Fault::MemoryNotFound(m) => m,
            Fault::MemoryNotDefined(m) => m,
            Fault::MalformedCall(m) => m,
        }
    }

    /// The report of the failure, as one line.
    pub open spec fn report(self) -> Seq<char> {
        "ERROR PROCESSING: "@ + self.label() + " : "@ + self.message()
    }
}

impl View for Errors {
    type V = Fault;

    open spec fn view(&self) -> Fault {
        match self {
            Errors::Non => Fault::Unknown,
            Errors::TokenNotMatched(m) => Fault::TokenNotMatched(m@),
            Errors::FunctionNotFound(m) => Fault::FunctionNotFound(m@),
            Errors::KeyNotFound(m) => Fault::KeyNotFound(m@),
            Errors::MemoryNotFound(m) => Fault::MemoryNotFound(m@),
            Errors::MemoryNotDefined(m) => Fault::MemoryNotDefined(m@),
            Errors::MalformedCall(m) => Fault::MalformedCall(m@),
        }
    }
}

impl Clone for Errors {
    /// A copy with the same content.
    fn clone(&self) -> (r: Self)
        ensures
            r@ == self@,
    {
        match self {
            Errors::Non => Errors::Non,
            Errors::TokenNotMatched(m) => Errors::TokenNotMatched(m.clone()),
            Errors::FunctionNotFound(m) => Errors::FunctionNotFound(m.clone()),
            Errors::KeyNotFound(m) => Errors::KeyNotFound(m.clone()),
            Errors::MemoryNotFound(m) => Errors::MemoryNotFound(m.clone()),
            Errors::MemoryNotDefined(m) => Errors::MemoryNotDefined(m.clone()),
            Errors::MalformedCall(m) => Errors::MalformedCall(m.clone()),
        }
    }
}

impl Errors {
    /// The report of the failure: `ERROR PROCESSING: `, the label of its
    /// kind, ` : `, and the text or name that it is about.
    pub fn to_str(&self) -> (s: String)
        ensures
            s@ == self@.report(),
    {
        let mut out: String = String::from_str("ERROR PROCESSING: ");
        match self {
            Errors::Non => {
                out.append("ERRORS::UNKNOWN");
                out.append(" : ");
                out.append("UNKNOWN ERROR");
            },
            Errors::TokenNotMatched(m) => {
                out.append("ERRORS::TOKEN_NOT_FOUND");
                out.append(" : ");
                out.append(m.as_str());
            },
            Errors::FunctionNotFound(m) => {
                out.append("ERRORS::FUNCTION_NOT_FOUND");
                out.append(" : ");
                out.append(m.as_str());
            },
            Errors::KeyNotFound(m) => {
                out.append("ERRORS::KEY_NOT_FOUND");
                out.append(" : ");
                out.append(m.as_str());
            },
            Errors::MemoryNotFound(m) => {
                out.append("ERRORS::MEMORY_NOT_FOUND");
                out.append(" : ");
                out.append(m.as_str());
            },
            Errors::MemoryNotDefined(m) => {
                out.append("ERRORS::MEMORY_NOT_DEFINED");
                out.append(" : ");
                out.append(m.as_str());
            },
            Errors::MalformedCall(m) => {
                out.append("ERRORS::MALFORMED_CALL");
                out.append(" : ");
                out.append(m.as_str());
            },
        }
        out
    }
}

/// The content of an outcome: of the value where there is one, of the failure
/// where there is none.
pub open spec fn outcome<V: View>(r: Result<V, Errors>) -> Result<V::V, Fault> {
    match r {
        Ok(v) => Ok(v@),
        Err(e) => Err(e@),
    }
}

} // verus!
