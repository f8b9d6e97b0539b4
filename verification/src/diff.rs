//! The staged changes, as the version-control tool gave them.

use vstd::prelude::*;

verus! {

/// What running the version-control tool for the staged changes gave: whether
/// it ended in success, and what it wrote.
#[derive(Clone, Debug, PartialEq, Eq)]
pub struct DiffRun {
    pub success: bool,
    pub output: String,
}

/// A run over sequences of characters.
pub struct DiffRunView {
    pub success: bool,
    pub output: Seq<char>,
}

impl View for DiffRun {
    type V = DiffRunView;

    open spec fn view(&self) -> DiffRunView {
        DiffRunView { success: self.success, output: self.output@ }
    }
}

/// The view of an optional run.
pub open spec fn run_view(run: Option<DiffRun>) -> Option<DiffRunView> {
    match run {
        Some(taken) => Some(taken@),
        None => None,
    }
}

/// The staged changes that a run stands for: what the tool wrote where it
/// ended in success, and no changes at all where it failed or could not be
/// run.
pub open spec fn diff_of(run: Option<DiffRunView>) -> Seq<char> {
    match run {
        Some(taken) => if taken.success {
            taken.output
        } else {
            Seq::empty()
        },
        None => Seq::empty(),
    }
}

/// The staged changes to send, from what running the tool gave; `None` says
/// that the tool could not be run.
pub fn staged_diff(run: Option<DiffRun>) -> (diff: String)
    ensures
        diff@ == diff_of(run_view(run)),
{
    match run {
        Some(taken) => {
            if taken.success {
                taken.output
            } else {
                String::new()
            }
        },
        None => String::new(),
    }
}

} // verus!
