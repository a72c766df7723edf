//! Bulk operations over many packages: each item is tried on its own and
//! the batch ends with a summary of what worked and what did not.

use vstd::prelude::*;
use vstd::string::*;
use crate::config::{strings_view, RestoreOutcome};

verus! {

/// Scans for packages and restores links in bulk.
pub struct Scanner;

/// How a batch went: how many items succeeded, and the names that failed.
#[derive(Clone, Debug)]
pub struct BatchSummary {
    pub succeeded: usize,
    pub failed: Vec<String>,
}

/// The names of `names` whose outcome in `oks` is a failure, in order.
pub open spec fn failed_names(names: Seq<Seq<char>>, oks: Seq<bool>) -> Seq<Seq<char>>
    decreases names.len(),
{
    if names.len() == 0 || oks.len() != names.len() {
        Seq::empty()
    } else {
        failed_names(names.drop_last(), oks.drop_last()) + if oks.last() {
            Seq::empty()
        } else {
            seq![names.last()]
        }
    }
}

/// How many of `oks` are successes.
pub open spec fn success_count(oks: Seq<bool>) -> int
    decreases oks.len(),
{
    if oks.len() == 0 {
        0
    } else {
        success_count(oks.drop_last()) + if oks.last() {
            1int
        } else {
            0int
        }
    }
}

pub open spec fn outcome_ok(o: RestoreOutcome) -> bool {
    o is Restored
}

impl Scanner {
    /// The summary of a batch: `names[i]` succeeded when `oks[i]` holds.
    /// A failure never stops the count; every item is accounted for.
    pub fn summarize(names: &Vec<String>, oks: &Vec<bool>) -> (r: BatchSummary)
        requires
            names@.len() == oks@.len(),
        ensures
            r.succeeded == success_count(oks@),
            strings_view(r.failed@) == failed_names(strings_view(names@), oks@),
            r.succeeded + r.failed@.len() == names@.len(),
    {
        let ghost nv = strings_view(names@);
        let mut succeeded: usize = 0;
        let mut failed: Vec<String> = Vec::new();
        let mut i: usize = 0;
        while i < names.len()
            invariant
                nv == strings_view(names@),
                names@.len() == oks@.len(),
                i <= names@.len(),
                succeeded == success_count(oks@.take(i as int)),
                strings_view(failed@) == failed_names(nv.take(i as int), oks@.take(i as int)),
                succeeded + failed@.len() == i,
            decreases names@.len() - i,
        {
            assert(nv.take(i + 1).drop_last() =~= nv.take(i as int));
            assert(oks@.take(i + 1).drop_last() =~= oks@.take(i as int));
            if oks[i] {
                succeeded = succeeded + 1;
            } else {
                failed.push(names[i].clone());
            }
            assert(strings_view(failed@) =~= failed_names(nv.take(i + 1), oks@.take(i + 1)));
            i = i + 1;
        }
        assert(nv.take(names@.len() as int) =~= nv);
        assert(oks@.take(names@.len() as int) =~= oks@);
        BatchSummary { succeeded, failed }
    }

    /// The summary of a restore run: a package counts as restored only when
    /// its link was both made and verified.
    pub fn summarize_restores(names: &Vec<String>, outcomes: &Vec<RestoreOutcome>) -> (r: BatchSummary)
        requires
            names@.len() == outcomes@.len(),
        ensures
            r.succeeded == success_count(outcomes@.map_values(|o: RestoreOutcome| outcome_ok(o))),
            strings_view(r.failed@) == failed_names(
                strings_view(names@),
                outcomes@.map_values(|o: RestoreOutcome| outcome_ok(o)),
            ),
    {
        let mut oks: Vec<bool> = Vec::new();
        let mut i: usize = 0;
        while i < outcomes.len()
            invariant
                i <= outcomes@.len(),
                oks@ == outcomes@.take(i as int).map_values(|o: RestoreOutcome| outcome_ok(o)),
            decreases outcomes@.len() - i,
        {
            let ok = match outcomes[i] {
                RestoreOutcome::Restored => true,
                _ => false,
            };
            oks.push(ok);
            assert(oks@ =~= outcomes@.take(i + 1).map_values(|o: RestoreOutcome| outcome_ok(o)));
            i = i + 1;
        }
        assert(outcomes@.take(outcomes@.len() as int) =~= outcomes@);
        Scanner::summarize(names, &oks)
    }
}

} // verus!
