//! The intervention decision model: the rule engine's verdict for one
//! request, and the end-of-request decision derived from it.

use vstd::prelude::*;

verus! {

/// The engine's decision record for one request: HTTP status to apply,
/// whether to pause, an optional redirect target, a log message, and
/// whether the decision is disruptive (blocks the request).
#[derive(Debug, Clone, PartialEq, Eq)]
pub struct Intervention {
    pub status: i32,
    pub pause: bool,
    pub url: String,
    pub log: String,
    pub disruptive: bool,
}

/// What the filter signals back to the proxy at the end of a request.
#[derive(Debug, Clone, Copy, PartialEq, Eq, Structural)]
pub enum FilterDecision {
    Continue,
    Block,
}

impl Intervention {
    /// An intervention blocks the request when it is disruptive or its
    /// status is 403.
    pub open spec fn blocks(self) -> bool {
        self.disruptive || self.status == 403
    }

    /// The fail-closed sentinel: installed whenever no timely decision
    /// exists, so that the request is blocked rather than waved through.
    pub fn fail_closed() -> (r: Intervention)
        ensures
            r.status == 403,
            !r.pause,
            r.url@ =~= Seq::<char>::empty(),
            r.log@ =~= Seq::<char>::empty(),
            r.disruptive,
            r.blocks(),
    {
        let r = Intervention {
            status: 403,
            pause: false,
            url: String::new(),
            log: String::new(),
            disruptive: true,
        };
        r
    }

    /// Whether this intervention calls for blocking the request.
    pub fn is_blocking(&self) -> (r: bool)
        ensures
            r == self.blocks(),
    {
        self.disruptive || self.status == 403
    }
}

} // verus!
