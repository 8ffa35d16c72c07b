use vstd::prelude::*;

verus! {

/// `std::io::Error`, declared so that a failure from the platform's file and
/// mapping calls can be carried through the library unchanged. The library
/// never inspects it.
#[verifier::external_type_specification]
#[verifier::external_body]
pub struct ExIoError(std::io::Error);

/// The ways reading a tile can fail.
#[derive(Debug)]
pub enum NasademError {
    /// An I/O failure, propagated verbatim from the underlying call.
    Io(std::io::Error),
    /// The file's base name does not encode a southwest corner; carries the
    /// offending name.
    HgtName(String),
    /// The file's length matches neither supported resolution; carries the
    /// observed length and the file's name.
    HgtLen(u64, String),
}

impl From<std::io::Error> for NasademError {
    fn from(other: std::io::Error) -> (r: NasademError) {
        NasademError::Io(other)
    }
}

impl vstd::std_specs::convert::FromSpecImpl<std::io::Error> for NasademError {
    open spec fn obeys_from_spec() -> bool {
        true
    }

    open spec fn from_spec(other: std::io::Error) -> NasademError {
        NasademError::Io(other)
    }
}

} // verus!
