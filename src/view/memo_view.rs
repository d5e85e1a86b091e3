use vstd::prelude::*;
use crate::plan::MemoPlaintext;
use crate::view::MemoCiphertext;

verus! {

/// A memo the viewer can read.
pub struct Visible {
    pub ciphertext: MemoCiphertext,
    pub plaintext: MemoPlaintext,
}

/// A memo the viewer cannot read.
pub struct Opaque {
    pub ciphertext: MemoCiphertext,
}

/// A memo as one viewer sees it.
pub enum MemoView {
    Visible(Visible),
    Opaque(Opaque),
}

impl MemoView {
    /// The ciphertext, which every viewer sees.
    pub fn ciphertext(&self) -> (r: &MemoCiphertext)
        ensures
            r == (match self {
                MemoView::Visible(v) => &v.ciphertext,
                MemoView::Opaque(o) => &o.ciphertext,
            }),
    {
        match self {
            MemoView::Visible(v) => &v.ciphertext,
            MemoView::Opaque(o) => &o.ciphertext,
        }
    }
}

} // verus!
