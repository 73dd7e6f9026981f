//! The before/after diff session: two evaluation runs against the same
//! checkout, one listing kept from each, and the set of names whose output
//! path differs.
//!
//! The caller mutates the checkout between the runs and performs the runs
//! themselves (they are process and filesystem work); this session takes
//! each run's captured text, keeps the parsed listings, and computes the
//! rebuild set once both are in hand.

use vstd::prelude::*;

use crate::listing::{str_eq, views_of, Listing};
use crate::model::{parse_spec, path_differs, rebuild_of, rebuild_upto};
use crate::outpaths::OutPaths;
use crate::parse::parse;

verus! {

/// One comparison request: a before-listing and an after-listing captured
/// in that order, then consumed by the rebuild calculation.
pub struct OutPathDiff {
    /// The evaluation-run state this session runs with, for the caller that
    /// performs the runs (metadata evaluation stays off for diffing).
    pub calculator: OutPaths,
    /// The listing of the "before" run, once captured.
    pub original: Option<Listing>,
    /// The listing of the "after" run, once captured.
    pub current: Option<Listing>,
}

impl OutPathDiff {
    pub fn new(path: String) -> (r: OutPathDiff)
        ensures
            r.original is None,
            r.current is None,
            r.calculator.dir() == path@,
            !r.calculator.meta(),
    {
        OutPathDiff { calculator: OutPaths::new(path, false), original: None, current: None }
    }

    /// Whether the before-listing is in hand, so that an "after" run is
    /// worth performing at all.
    pub fn before_captured(&self) -> (r: bool)
        ensures
            r == (self.original is Some),
    {
        self.original.is_some()
    }

    /// Takes the outcome of the "before" run. On captured output the parsed
    /// listing becomes the before-listing and the call reports true; a
    /// failed run is swallowed into a false report and changes nothing.
    pub fn find_before(&mut self, run: Result<String, String>) -> (r: bool)
        ensures
            match run {
                Ok(out) => r
                    && (final(self).original matches Some(l) && l@ == parse_spec(out@))
                    && final(self).current == old(self).current
                    && final(self).calculator == old(self).calculator,
                Err(_) => !r && *final(self) == *old(self),
            },
    {
        match run {
            Ok(out) => {
                self.original = Some(parse(out.as_str()));
                true
            },
            Err(_) => false,
        }
    }

    /// Takes the outcome of the "after" run. Before a before-listing is in
    /// hand it reports Ok(false) and touches nothing — there was nothing to
    /// compare against, so no run should have been performed. With the
    /// before-listing in hand, captured output becomes the after-listing
    /// (Ok(true)); a failed run hands its captured artifact back unchanged.
    pub fn find_after(&mut self, run: Result<String, String>) -> (r: Result<bool, String>)
        ensures
            old(self).original is None ==> (r matches Ok(b) && !b) && *final(self) == *old(self),
            old(self).original is Some ==> match run {
                Ok(out) => (r matches Ok(b) && b)
                    && (final(self).current matches Some(l) && l@ == parse_spec(out@))
                    && final(self).original == old(self).original
                    && final(self).calculator == old(self).calculator,
                Err(e) => (r matches Err(e2) && e2@ == e@) && *final(self) == *old(self),
            },
    {
        if self.original.is_none() {
            return Ok(false);
        }
        match run {
            Ok(out) => {
                self.current = Some(parse(out.as_str()));
                Ok(true)
            },
            Err(e) => Err(e),
        }
    }

    /// Consumes the session and returns the rebuild set: the names of the
    /// after-listing whose output path is absent from or different in the
    /// before-listing, in the after-listing's order. With either listing
    /// missing there is no information, and the result is None rather than
    /// an empty set.
    pub fn calculate_rebuild(self) -> (r: Option<Vec<String>>)
        ensures
            self.original matches Some(orig) ==> self.current matches Some(cur) ==> (
            r matches Some(v) && views_of(v@) == rebuild_of(orig@, cur@)),
            self.original is None || self.current is None ==> r is None,
    {
        match (self.current, self.original) {
            (Some(cur), Some(orig)) => Some(rebuild_names(&orig, &cur)),
            _ => None,
        }
    }
}

/// The names of `cur` entries whose path is absent from or different in
/// `orig`, in `cur`'s order.
fn rebuild_names(orig: &Listing, cur: &Listing) -> (r: Vec<String>)
    ensures
        views_of(r@) == rebuild_of(orig@, cur@),
{
    let mut r: Vec<String> = Vec::new();
    let n = cur.len();
    let mut i: usize = 0;
    while i < n
        invariant
            i <= n,
            n == cur@.len(),
            views_of(r@) == rebuild_upto(orig@, cur@, i as int),
        decreases n - i,
    {
        let name = cur.name_at(i);
        let path = cur.path_at(i);
        let changed: bool = match orig.get(name.as_str()) {
            None => true,
            Some(other) => !str_eq(other.as_str(), path.as_str()),
        };
        proof {
            assert(changed == path_differs(orig@, cur@[i as int].0, cur@[i as int].1));
        }
        let ghost r0 = r@;
        if changed {
            r.push(name);
            proof {
                assert(views_of(r@) =~= views_of(r0).push(cur@[i as int].0));
            }
        }
        i += 1;
    }
    r
}

} // verus!
