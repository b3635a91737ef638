//! Documents as a tab holds them.

pub mod markdown;

use vstd::prelude::*;

verus! {

/// What a document reports after it was shown.
#[derive(Debug, Clone, PartialEq, Eq)]
pub struct DocumentResponse {
    pub link_clicked: Option<String>,
}

} // verus!
