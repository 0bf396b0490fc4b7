//! The operations that the log records: set a key to a value, or delete it.
//!
//! Each record is one line of the log. Turning a record into its text and back
//! is done with serde_json by the code around the library; the library works on
//! the records themselves.
use vstd::prelude::*;

verus! {

/// One logged operation.
#[derive(Debug)]
pub enum KvOpeE {
    KvOpeSet { k: String, v: String },
    KvOpeDel { k: String },
}

/// A log record.
#[derive(Debug)]
pub struct KvOpe {
    pub ope: KvOpeE,
}

/// A logged operation as mathematical values.
pub enum OpeView {
    Put { k: Seq<char>, v: Seq<char> },
    Remove { k: Seq<char> },
}

impl OpeView {
    /// The key that the operation is about.
    pub open spec fn key(self) -> Seq<char> {
        match self {
            OpeView::Put { k, .. } => k,
            OpeView::Remove { k } => k,
        }
    }
}

impl View for KvOpeE {
    type V = OpeView;

    open spec fn view(&self) -> OpeView {
        match self {
            KvOpeE::KvOpeSet { k, v } => OpeView::Put { k: k@, v: v@ },
            KvOpeE::KvOpeDel { k } => OpeView::Remove { k: k@ },
        }
    }
}

impl View for KvOpe {
    type V = OpeView;

    open spec fn view(&self) -> OpeView {
        self.ope@
    }
}

impl KvOpe {
    /// Wraps an operation into a record.
    pub fn create(ope_enum: KvOpeE) -> (r: KvOpe)
        ensures
            r@ == ope_enum@,
    {
        KvOpe { ope: ope_enum }
    }
}

} // verus!
