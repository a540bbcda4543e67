//! The documents that the sample endpoint takes and gives.

use vstd::prelude::*;

verus! {

/// The body that the sample endpoint expects.
#[derive(Clone, Debug, PartialEq, Eq)]
pub struct RequestData {
    pub name: String,
    pub message: String,
}

/// A `RequestData`, as contracts speak of it.
pub struct RequestDataView {
    pub name: Seq<char>,
    pub message: Seq<char>,
}

impl View for RequestData {
    type V = RequestDataView;

    open spec fn view(&self) -> RequestDataView {
        RequestDataView { name: self.name@, message: self.message@ }
    }
}

/// The body that the sample endpoint answers with.
#[derive(Clone, Debug, PartialEq, Eq)]
pub struct ResponseData {
    pub message: String,
}

} // verus!
