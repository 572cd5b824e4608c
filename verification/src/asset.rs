//! The capability contract every pipeline implements.
//!
//! A pipeline either runs one input end to end ([`Asset::run_once`]),
//! or first claims inputs ([`Asset::try_push_input`]) and later runs
//! them all as a batch ([`Asset::outputs`]).  Rejecting an input as
//! "not mine" is control flow, not failure: the input rides back in
//! the error so a dispatcher can offer it to the next pipeline.
//!
//! Each implementation states its behaviour through the spec members:
//! what a run returns, what it leaves of the disk, and what claiming
//! does.  The laws in [`Asset::run_laws`] and [`Asset::push_laws`]
//! keep the "not mine" signal and genuine failures disjoint.

use crate::disk::{Disk, DiskView};
use crate::document::Document;
use crate::error::{Error, ErrorView};
use crate::input::{AssetInput, AssetInputView};
use vstd::prelude::*;

verus! {

/// What one run of a pipeline on one input comes to.
pub enum RunOutcome<O> {
    /// The pipeline owned the input and produced this output.
    Produced(O),
    /// The pipeline does not own the input; it is handed back unchanged.
    NotMine(AssetInputView),
    /// The pipeline owned the input and failed.
    Failed(ErrorView),
}

/// What claiming one input comes to.
pub enum PushOutcome {
    /// The input was claimed for the batch.
    Took,
    /// The pipeline does not own the input; it is handed back unchanged.
    NotMine(AssetInputView),
    /// The pipeline owns the input but refused it as malformed.
    Refused(ErrorView),
}

/// One result in a batch's output sequence.
pub enum BatchItem<O> {
    Produced(O),
    Failed(ErrorView),
}

/// How one returned result realizes one stated batch item.
pub open spec fn item_matches<O>(it: BatchItem<O>, r: Result<O, Error>) -> bool {
    match it {
        BatchItem::Produced(o) => r matches Ok(x) && x == o,
        BatchItem::Failed(ev) => r matches Err(e) && e@ == ev,
    }
}

/// The capability contract of a build pipeline.
pub trait Asset: Sized {
    /// What the pipeline builds.
    type Output;

    /// What running one input against a disk returns.
    spec fn run_result(&self, d: DiskView, i: AssetInputView) -> RunOutcome<Self::Output>;

    /// What running one input leaves of the disk.
    spec fn run_disk(&self, d: DiskView, i: AssetInputView) -> DiskView;

    /// What claiming one input comes to.
    spec fn push_result(&self, i: AssetInputView) -> PushOutcome;

    /// How a pipeline that took an input relates to what it was: `post`
    /// is the pipeline with the input claimed at the end of its queue.
    spec fn push_took(&self, post: Self, i: AssetInputView) -> bool;

    /// The results a batch run yields, in order, one per claimed input.
    spec fn batch_results(&self, d: DiskView) -> Seq<BatchItem<Self::Output>>;

    /// What a batch run leaves of the disk.
    spec fn batch_disk(&self, d: DiskView) -> DiskView;

    /// The "not mine" signal hands the input back unchanged and touches
    /// nothing, and a genuine failure is never dressed as "not mine".
    proof fn run_laws(&self, d: DiskView, i: AssetInputView)
        ensures
            self.run_result(d, i) matches RunOutcome::NotMine(j) ==> j == i && self.run_disk(d, i)
                == d,
            self.run_result(d, i) matches RunOutcome::Failed(ev) ==> !(ev is AssetNotMatched),
    ;

    /// The claim operation keeps the same two categories disjoint.
    proof fn push_laws(&self, i: AssetInputView)
        ensures
            self.push_result(i) matches PushOutcome::NotMine(j) ==> j == i,
            self.push_result(i) matches PushOutcome::Refused(ev) ==> !(ev is AssetNotMatched),
    ;

    /// Runs one input end to end, skipping the queue.
    fn run_once(&self, disk: &mut Disk, input: AssetInput) -> (r: Result<Self::Output, Error>)
        ensures
            final(disk)@ == self.run_disk(old(disk)@, input@),
            match self.run_result(old(disk)@, input@) {
                RunOutcome::Produced(o) => r matches Ok(x) && x == o,
                RunOutcome::NotMine(j) => r matches Err(e) && e@ == (ErrorView::AssetNotMatched {
                    input: j,
                }),
                RunOutcome::Failed(ev) => r matches Err(e) && e@ == ev,
            },
    ;

    /// Claims one input for a later batch run; no effect on rejection.
    fn try_push_input(&mut self, input: AssetInput) -> (r: Result<(), Error>)
        ensures
            match old(self).push_result(input@) {
                PushOutcome::Took => r is Ok && old(self).push_took(*final(self), input@),
                PushOutcome::NotMine(j) => r matches Err(e) && *final(self) == *old(self) && e@
                    == (ErrorView::AssetNotMatched { input: j }),
                PushOutcome::Refused(ev) => r matches Err(e) && *final(self) == *old(self) && e@
                    == ev,
            },
    ;

    /// Consumes the pipeline, runs every claimed input, and yields one
    /// result per input.
    fn outputs(self, disk: &mut Disk) -> (rs: Vec<Result<Self::Output, Error>>)
        ensures
            final(disk)@ == self.batch_disk(old(disk)@),
            rs@.len() == self.batch_results(old(disk)@).len(),
            forall|k: int|
                0 <= k < rs@.len() ==> item_matches(
                    #[trigger] self.batch_results(old(disk)@)[k],
                    rs@[k],
                ),
    ;
}

/// The contract of a build result: it can be realized in the shared
/// document exactly once.
pub trait Output: Sized {
    /// What finalizing leaves of the document.
    spec fn doc_after(&self, doc: Seq<usize>) -> Seq<usize>;

    /// Why finalizing against this document fails, if it does.
    spec fn finalize_err(&self, doc: Seq<usize>) -> Option<ErrorView>;

    /// Realizes the build result in the shared document.
    fn finalize(self, dom: &mut Document) -> (r: Result<(), Error>)
        ensures
            final(dom)@ == self.doc_after(old(dom)@),
            match self.finalize_err(old(dom)@) {
                None => r is Ok,
                Some(ev) => r matches Err(e) && e@ == ev,
            },
    ;
}

} // verus!
