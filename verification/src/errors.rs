//! The failures the codec reports.
//!
//! Every failure is a value-level rejection of one input; none aborts the
//! process.  Each variant carries the offending input text so that a caller
//! can print a diagnostic naming it.
use vstd::prelude::*;

verus! {

#[derive(Debug)]
pub enum CodecError {
    /// The input is not a well-formed UUID text.
    InvalidUuidFormat(String),
    /// The input is not a well-formed 22-character Base58 text.
    InvalidB58Format(String),
    /// The input is well-formed Base58 text, but its value does not fit in
    /// 128 bits.
    ValueOverflow(String),
}

impl CodecError {
    /// The offending input that this error carries.
    pub open spec fn spec_input(&self) -> Seq<char> {
        match self {
            CodecError::InvalidUuidFormat(s) => s@,
            CodecError::InvalidB58Format(s) => s@,
            CodecError::ValueOverflow(s) => s@,
        }
    }

    /// The offending input that this error carries.
    pub fn input(&self) -> (r: &String)
        ensures
            r@ == self.spec_input(),
    {
        match self {
            CodecError::InvalidUuidFormat(s) => s,
            CodecError::InvalidB58Format(s) => s,
            CodecError::ValueOverflow(s) => s,
        }
    }
}

} // verus!
