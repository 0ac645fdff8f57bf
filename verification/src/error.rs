use vstd::prelude::*;

use crate::text::joined;

verus! {

#[verifier::external_type_specification]
#[verifier::external_body]
pub struct ExIoError(std::io::Error);

/// Errors of the optimizer.
#[derive(Debug)]
pub enum VelaError {
    /// The binary is not valid WebAssembly, or could not be re-encoded.
    InvalidWasm(String),
    /// The binary is not a Component Model binary.
    NotComponent(String),
    /// `wasmparser` rejected the binary.
    Wasm(wasmparser::Error),
    /// Reading or writing a file failed.
    Io(std::io::Error),
}

impl VelaError {
    /// The binary could not be read or re-encoded: a parse error or an
    /// invalid binary.
    pub open spec fn is_parse_error(self) -> bool {
        self is Wasm || self is InvalidWasm
    }

    /// The message of the error: a prefix that names its kind, then the detail.
    pub fn to_string(&self) -> (s: String)
        ensures
            self matches VelaError::InvalidWasm(m) ==> s@ == "invalid WASM: "@ + m@,
            self matches VelaError::NotComponent(m) ==> s@ == "not a Component Model WASM: "@ + m@,
            self matches VelaError::Wasm(e) ==> exists|d: String|
                vstd::string::to_string_from_display_ensures::<wasmparser::Error>(&e, d) && s@
                    == "WASM parse error: "@ + d@,
            self matches VelaError::Io(e) ==> exists|d: String|
                vstd::string::to_string_from_display_ensures::<std::io::Error>(&e, d) && s@ == "I/O error: "@
                    + d@,
    {
        match self {
            VelaError::InvalidWasm(m) => joined("invalid WASM: ", m.as_str()),
            VelaError::NotComponent(m) => joined("not a Component Model WASM: ", m.as_str()),
            VelaError::Wasm(e) => {
                let detail = e.to_string();
                joined("WASM parse error: ", detail.as_str())
            },
            VelaError::Io(e) => {
                let detail = e.to_string();
                joined("I/O error: ", detail.as_str())
            },
        }
    }
}

impl From<wasmparser::Error> for VelaError {
    /// A parse error of `wasmparser`.
    fn from(e: wasmparser::Error) -> (r: Self) {
        VelaError::Wasm(e)
    }
}

impl vstd::std_specs::convert::FromSpecImpl<wasmparser::Error> for VelaError {
    open spec fn obeys_from_spec() -> bool {
        true
    }

    open spec fn from_spec(e: wasmparser::Error) -> Self {
        VelaError::Wasm(e)
    }
}

impl From<std::io::Error> for VelaError {
    /// An I/O error.
    fn from(e: std::io::Error) -> (r: Self) {
        VelaError::Io(e)
    }
}

impl vstd::std_specs::convert::FromSpecImpl<std::io::Error> for VelaError {
    open spec fn obeys_from_spec() -> bool {
        true
    }

    open spec fn from_spec(e: std::io::Error) -> Self {
        VelaError::Io(e)
    }
}

} // verus!
