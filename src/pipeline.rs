//! The computing half of handling one test file, and the record of a run
//! over many files in which one file's failure does not stop the others.

use vstd::prelude::*;
use crate::error::HarnessError;
use crate::frontmatter::{frontmatter_of, extract_frontmatter};
use crate::metadata::{resolved_includes_of, declared_includes_of, resolved_includes, views, assert_file, sta_file};
use crate::compose::{preamble_of, script_of, lemma_preamble_append, lemma_preamble_push, lemma_preamble_in_order};
use crate::yaml::Node;

verus! {

/// What to do with a test file's text: `Ok(None)` to skip it, its metadata
/// being no mapping; `Ok(Some(names))` to load the named files before it.
pub open spec fn plan_of(t: Seq<char>) -> Result<Option<Seq<Seq<char>>>, HarnessError> {
    match frontmatter_of(t) {
        Err(e) => Err(e),
        Ok(doc) => Ok(resolved_includes_of(doc)),
    }
}

/// The view of a plan.
pub open spec fn plan_view(r: Result<Option<Vec<String>>, HarnessError>) -> Result<Option<Seq<Seq<char>>>, HarnessError> {
    match r {
        Err(e) => Err(e),
        Ok(None) => Ok(None),
        Ok(Some(v)) => Ok(Some(views(v@))),
    }
}

/// Reads a test file's metadata and lists, in order, the files to load
/// before its body; see [`plan_of`].
pub fn plan_test(contents: &str) -> (r: Result<Option<Vec<String>>, HarnessError>)
    ensures
        plan_view(r) == plan_of(contents@),
{
    match extract_frontmatter(contents) {
        Err(e) => Err(e),
        Ok(doc) => Ok(resolved_includes(&doc)),
    }
}

/// Whatever a test lists, the script ends with the contents of `assert.js`
/// and of `sta.js`, each with its newline, then the test body; `read` gives
/// the contents of each named file.
pub proof fn lemma_bootstrap_last(
    doc: Node,
    read: spec_fn(Seq<char>) -> Seq<char>,
    body: Seq<char>,
)
    requires
        declared_includes_of(doc) is Some,
    ensures
        resolved_includes_of(doc) is Some,
        script_of(resolved_includes_of(doc)->0.map_values(read), body)
            == preamble_of(declared_includes_of(doc)->0.map_values(read))
                + read(assert_file()) + seq!['\n'] + read(sta_file()) + seq!['\n'] + body,
{
    let d = declared_includes_of(doc)->0;
    let r = resolved_includes_of(doc)->0;
    let tail = seq![read(assert_file()), read(sta_file())];
    assert(r.map_values(read) =~= d.map_values(read) + tail);
    lemma_preamble_append(d.map_values(read), tail);
    let e = Seq::<Seq<char>>::empty();
    lemma_preamble_push(e, read(assert_file()));
    lemma_preamble_push(e.push(read(assert_file())), read(sta_file()));
    assert(e.push(read(assert_file())).push(read(sta_file())) =~= tail);
    assert(preamble_of(tail) =~= read(assert_file()) + seq!['\n'] + read(sta_file()) + seq!['\n']);
    assert(script_of(r.map_values(read), body) =~= preamble_of(d.map_values(read))
        + read(assert_file()) + seq!['\n'] + read(sta_file()) + seq!['\n'] + body);
}


/// With `includes: [a, b]` the preamble holds, in this order, the contents of
/// `a`, `b`, `assert.js` and `sta.js`, each followed by a newline.
pub proof fn lemma_includes_order_kept(
    doc: Node,
    a: Seq<char>,
    b: Seq<char>,
    read: spec_fn(Seq<char>) -> Seq<char>,
)
    requires
        declared_includes_of(doc) == Some(seq![a, b]),
    ensures
        resolved_includes_of(doc) is Some,
        preamble_of(resolved_includes_of(doc)->0.map_values(read))
            == read(a) + seq!['\n'] + read(b) + seq!['\n']
                + read(assert_file()) + seq!['\n'] + read(sta_file()) + seq!['\n'],
{
    let r = resolved_includes_of(doc)->0;
    assert(r.map_values(read) =~= seq![read(a), read(b), read(assert_file()), read(sta_file())]);
    lemma_preamble_in_order(read(a), read(b), read(assert_file()), read(sta_file()));
}

/// How the handling of one test file ended.
#[derive(Debug, PartialEq, Eq)]
pub enum FileOutcome {
    /// Its metadata is no mapping, so it was not run.
    Skipped,
    /// Its script was assembled and handed to the interpreter.
    Dispatched,
    /// It could not be assembled or run.
    Failed(HarnessError),
}

/// The number of failed files among the recorded ones.
pub open spec fn failures_in(s: Seq<(String, FileOutcome)>) -> nat
    decreases s.len(),
{
    if s.len() == 0 {
        0
    } else {
        failures_in(s.drop_last()) + if s.last().1 is Failed { 1nat } else { 0nat }
    }
}

/// The outcome of each file handled in a run, in the order handled. A failed
/// file is recorded and the run goes on with the next one.
pub struct RunReport {
    pub entries: Vec<(String, FileOutcome)>,
}

impl RunReport {
    /// A report of a run that has handled no file yet.
    pub fn new() -> (r: RunReport)
        ensures
            r.entries@.len() == 0,
    {
        RunReport { entries: Vec::new() }
    }

    /// Records how the handling of the file at `path` ended.
    pub fn record(&mut self, path: String, outcome: FileOutcome)
        ensures
            final(self).entries@ == old(self).entries@.push((path, outcome)),
    {
        self.entries.push((path, outcome));
    }

    /// The number of files whose handling failed.
    pub fn failure_count(&self) -> (r: usize)
        ensures
            r == failures_in(self.entries@),
    {
        let mut n: usize = 0;
        let mut i: usize = 0;
        while i < self.entries.len()
            invariant
                i <= self.entries.len(),
                n == failures_in(self.entries@.take(i as int)),
                n <= i,
            decreases self.entries.len() - i,
        {
            assert(self.entries@.take(i + 1).drop_last() =~= self.entries@.take(i as int));
            if let FileOutcome::Failed(_) = &self.entries[i].1 {
                n = n + 1;
            }
            i = i + 1;
        }
        assert(self.entries@.take(i as int) =~= self.entries@);
        n
    }
}

} // verus!
