//! What the command line selects: the pods to watch, by name and by age.

use crate::ctime::CTime;
use vstd::prelude::*;

verus! {

/// The selection that is fixed at startup: the name patterns, one of which a
/// pod's name must contain, and the predicate on its creation time, if any.
#[derive(Debug)]
pub struct Args {
    pub pod_name_matchers: Vec<String>,
    pub ctime: Option<CTime>,
}

/// The texts of a list of names, in order.
pub open spec fn texts(names: Seq<String>) -> Seq<Seq<char>> {
    Seq::new(names.len(), |i: int| names[i]@)
}

impl Args {
    /// The selection that the command line asks for. The two time flags
    /// exclude each other; of the two values, the one of the `after` flag
    /// is taken where it is given, else the one of the `before` flag.
    pub fn new(
        pod_name_matchers: Vec<String>,
        catime: Option<CTime>,
        cbtime: Option<CTime>,
    ) -> (args: Args)
        ensures
            args.pod_name_matchers == pod_name_matchers,
            args.ctime == (if catime is Some {
                catime
            } else {
                cbtime
            }),
    {
        let ctime = match catime {
            Some(t) => Some(t),
            None => cbtime,
        };
        Args { pod_name_matchers, ctime }
    }
}

} // verus!
