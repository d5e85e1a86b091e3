use vstd::prelude::*;
use crate::transaction::Output;
use crate::view::PayloadKey;

verus! {

/// An output whose payload the viewer can decrypt.
pub struct Visible {
    pub output: Output,
    pub payload_key: PayloadKey,
}

/// An output whose payload the viewer cannot decrypt.
pub struct Opaque {
    pub output: Output,
}

/// An output as one viewer sees it.
pub enum OutputView {
    Visible(Visible),
    Opaque(Opaque),
}

} // verus!
