//! What a conversion leaves behind, as a mathematical value.

use vstd::prelude::*;
use crate::error::Error;

verus! {

/// The effect of a conversion on its two streams, and how it ended.
#[verifier::ext_equal]
pub struct Outcome {
    /// The bytes appended to the output.
    pub written: Seq<u8>,
    /// The bytes of the input that were not read.
    pub unread: Seq<u8>,
    /// `Ok` if the conversion ran to its end, else the error that stopped it.
    pub result: Result<(), Error>,
}

impl Outcome {
    /// A conversion that read everything, wrote `written` and succeeded.
    pub open spec fn complete(written: Seq<u8>) -> Outcome {
        Outcome { written, unread: Seq::empty(), result: Ok(()) }
    }

    /// A conversion that stopped on `error` before it wrote anything.
    pub open spec fn failed(error: Error, unread: Seq<u8>) -> Outcome {
        Outcome { written: Seq::empty(), unread, result: Err(error) }
    }

    /// This outcome, with `prefix` written first.
    pub open spec fn after(self, prefix: Seq<u8>) -> Outcome {
        Outcome { written: prefix + self.written, unread: self.unread, result: self.result }
    }
}

} // verus!
