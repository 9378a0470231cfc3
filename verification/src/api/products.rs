//! Product requests.

use vstd::prelude::*;

verus! {

/// Body of an approval request: an optional version label.
#[derive(Clone, Debug, PartialEq, Eq)]
pub struct ApproveRequest {
    pub label: Option<String>,
}

impl ApproveRequest {
    /// The label of the approval snapshot: the requested one, or
    /// `approve-<product id>` when none is given.
    pub fn label_or_default(&self, product_id: &str) -> (r: String)
        ensures
            r@ == (match self.label {
                Some(l) => l@,
                None => "approve-"@ + product_id@,
            }),
    {
        match &self.label {
            Some(l) => l.clone(),
            None => {
                let mut s = String::from_str("approve-");
                s.append(product_id);
                s
            },
        }
    }
}

} // verus!
