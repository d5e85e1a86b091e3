use vstd::prelude::*;
use crate::transaction::Spend;

verus! {

/// A spend whose note the viewer knows.
pub struct Visible {
    pub spend: Spend,
    pub note: Vec<u8>,
}

/// A spend whose note the viewer does not know.
pub struct Opaque {
    pub spend: Spend,
}

/// A spend as one viewer sees it.
pub enum SpendView {
    Visible(Visible),
    Opaque(Opaque),
}

} // verus!
