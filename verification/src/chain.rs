//! The fallback-chaining combinator.
//!
//! [`Chain`] composes two pipelines: the first is tried, and only when
//! it reports the input as not its own is the second tried with the
//! input the first handed back.  Any genuine failure of the first
//! propagates untouched.  A chain is itself an [`Asset`], so chains
//! nest into a priority list of pipeline kinds.

use crate::asset::{item_matches, Asset, BatchItem, Output, PushOutcome, RunOutcome};
use crate::disk::{Disk, DiskView};
use crate::document::Document;
use crate::error::{Error, ErrorView};
use crate::input::{AssetInput, AssetInputView};
use vstd::prelude::*;

verus! {

/// Chains two pipelines: the first is tried, and on "not mine" the
/// second is tried with the same input.
#[derive(Debug)]
pub struct Chain<A, B> {
    /// The pipeline tried first.
    pub first: A,
    /// The pipeline tried when the first does not own the input.
    pub second: B,
}

/// The output of a chain: whichever branch produced the value.
#[derive(Debug)]
pub enum ChainOutput<OA, OB> {
    /// The first pipeline produced this.
    First(OA),
    /// The second pipeline produced this.
    Second(OB),
}

/// Batch items of the first branch, tagged.
pub open spec fn tag_first<OA, OB>(items: Seq<BatchItem<OA>>) -> Seq<BatchItem<ChainOutput<OA, OB>>> {
    items.map_values(
        |it: BatchItem<OA>|
            match it {
                BatchItem::Produced(o) => BatchItem::<ChainOutput<OA, OB>>::Produced(
                    ChainOutput::First(o),
                ),
                BatchItem::Failed(ev) => BatchItem::<ChainOutput<OA, OB>>::Failed(ev),
            },
    )
}

/// Batch items of the second branch, tagged.
pub open spec fn tag_second<OA, OB>(items: Seq<BatchItem<OB>>) -> Seq<
    BatchItem<ChainOutput<OA, OB>>,
> {
    items.map_values(
        |it: BatchItem<OB>|
            match it {
                BatchItem::Produced(o) => BatchItem::<ChainOutput<OA, OB>>::Produced(
                    ChainOutput::Second(o),
                ),
                BatchItem::Failed(ev) => BatchItem::<ChainOutput<OA, OB>>::Failed(ev),
            },
    )
}

impl<A: Asset, B: Asset> Asset for Chain<A, B> {
    type Output = ChainOutput<A::Output, B::Output>;

    open spec fn run_result(&self, d: DiskView, i: AssetInputView) -> RunOutcome<
        ChainOutput<A::Output, B::Output>,
    > {
        match self.first.run_result(d, i) {
            RunOutcome::Produced(o) => RunOutcome::Produced(ChainOutput::First(o)),
            RunOutcome::Failed(ev) => RunOutcome::Failed(ev),
            RunOutcome::NotMine(j) => match self.second.run_result(
                self.first.run_disk(d, i),
                j,
            ) {
                RunOutcome::Produced(o) => RunOutcome::Produced(ChainOutput::Second(o)),
                RunOutcome::Failed(ev) => RunOutcome::Failed(ev),
                RunOutcome::NotMine(k) => RunOutcome::NotMine(k),
            },
        }
    }

    open spec fn run_disk(&self, d: DiskView, i: AssetInputView) -> DiskView {
        match self.first.run_result(d, i) {
            RunOutcome::NotMine(j) => self.second.run_disk(self.first.run_disk(d, i), j),
            _ => self.first.run_disk(d, i),
        }
    }

    open spec fn push_result(&self, i: AssetInputView) -> PushOutcome {
        match self.first.push_result(i) {
            PushOutcome::Took => PushOutcome::Took,
            PushOutcome::Refused(ev) => PushOutcome::Refused(ev),
            PushOutcome::NotMine(j) => self.second.push_result(j),
        }
    }

    open spec fn push_took(&self, post: Self, i: AssetInputView) -> bool {
        if self.first.push_result(i) is Took {
            self.first.push_took(post.first, i) && post.second == self.second
        } else {
            post.first == self.first && self.second.push_took(post.second, i)
        }
    }

    open spec fn batch_results(&self, d: DiskView) -> Seq<
        BatchItem<ChainOutput<A::Output, B::Output>>,
    > {
        tag_first::<A::Output, B::Output>(self.first.batch_results(d)) + tag_second::<
            A::Output,
            B::Output,
        >(self.second.batch_results(self.first.batch_disk(d)))
    }

    open spec fn batch_disk(&self, d: DiskView) -> DiskView {
        self.second.batch_disk(self.first.batch_disk(d))
    }

    proof fn run_laws(&self, d: DiskView, i: AssetInputView) {
        self.first.run_laws(d, i);
        if self.first.run_result(d, i) is NotMine {
            self.second.run_laws(d, i);
        }
    }

    proof fn push_laws(&self, i: AssetInputView) {
        self.first.push_laws(i);
        if self.first.push_result(i) is NotMine {
            self.second.push_laws(i);
        }
    }

    fn run_once(&self, disk: &mut Disk, input: AssetInput) -> (r: Result<
        ChainOutput<A::Output, B::Output>,
        Error,
    >) {
        let ghost d0 = disk@;
        let ghost iv = input@;
        proof {
            self.first.run_laws(d0, iv);
        }
        match self.first.run_once(disk, input) {
            Ok(o) => Ok(ChainOutput::First(o)),
            Err(e) => match e {
                Error::AssetNotMatched { input } => match self.second.run_once(disk, input) {
                    Ok(o) => Ok(ChainOutput::Second(o)),
                    Err(e2) => Err(e2),
                },
                other => Err(other),
            },
        }
    }

    fn try_push_input(&mut self, input: AssetInput) -> (r: Result<(), Error>) {
        let ghost iv = input@;
        proof {
            self.first.push_laws(iv);
        }
        match self.first.try_push_input(input) {
            Ok(u) => Ok(u),
            Err(e) => match e {
                Error::AssetNotMatched { input } => self.second.try_push_input(input),
                other => Err(other),
            },
        }
    }

    fn outputs(self, disk: &mut Disk) -> (rs: Vec<
        Result<ChainOutput<A::Output, B::Output>, Error>,
    >) {
        let Chain { first, second } = self;
        let ghost d0 = disk@;
        let ghost items1 = first.batch_results(d0);
        let mut rs1 = first.outputs(disk);
        let ghost items2 = second.batch_results(disk@);
        let mut rs2 = second.outputs(disk);
        let ghost rs1v = rs1@;
        let ghost rs2v = rs2@;
        let ghost tagged = tag_first::<A::Output, B::Output>(items1) + tag_second::<
            A::Output,
            B::Output,
        >(items2);
        let mut rs: Vec<Result<ChainOutput<A::Output, B::Output>, Error>> = Vec::new();
        let n1 = rs1.len();
        let mut i: usize = 0;
        proof {
            assert(rs1@ =~= rs1v.skip(0));
        }
        while i < n1
            invariant
                i <= n1,
                n1 == rs1v.len(),
                n1 == items1.len(),
                rs1@ == rs1v.skip(i as int),
                rs@.len() == i,
                tagged == tag_first::<A::Output, B::Output>(items1) + tag_second::<
                    A::Output,
                    B::Output,
                >(items2),
                forall|k: int|
                    0 <= k < n1 ==> item_matches(#[trigger] items1[k], rs1v[k]),
                forall|k: int| 0 <= k < i ==> item_matches(#[trigger] tagged[k], rs@[k]),
            decreases n1 - i,
        {
            proof {
                assert(rs1v.skip(i as int)[0] == rs1v[i as int]);
                assert(rs1v.skip(i as int).remove(0) =~= rs1v.skip(i as int + 1));
            }
            let x = rs1.remove(0);
            let y = match x {
                Ok(o) => Ok(ChainOutput::<A::Output, B::Output>::First(o)),
                Err(e) => Err(e),
            };
            rs.push(y);
            proof {
                assert(item_matches(items1[i as int], rs1v[i as int]));
                assert(tagged[i as int] == tag_first::<A::Output, B::Output>(items1)[i as int]);
                assert(item_matches(tagged[i as int], rs@[i as int]));
            }
            i += 1;
        }
        let n2 = rs2.len();
        let mut j: usize = 0;
        proof {
            assert(rs2@ =~= rs2v.skip(0));
        }
        while j < n2
            invariant
                j <= n2,
                n2 == rs2v.len(),
                n2 == items2.len(),
                n1 == items1.len(),
                rs2@ == rs2v.skip(j as int),
                rs@.len() == n1 + j,
                tagged == tag_first::<A::Output, B::Output>(items1) + tag_second::<
                    A::Output,
                    B::Output,
                >(items2),
                forall|k: int|
                    0 <= k < n2 ==> item_matches(#[trigger] items2[k], rs2v[k]),
                forall|k: int| 0 <= k < n1 + j ==> item_matches(#[trigger] tagged[k], rs@[k]),
            decreases n2 - j,
        {
            proof {
                assert(rs2v.skip(j as int)[0] == rs2v[j as int]);
                assert(rs2v.skip(j as int).remove(0) =~= rs2v.skip(j as int + 1));
            }
            let x = rs2.remove(0);
            let y = match x {
                Ok(o) => Ok(ChainOutput::<A::Output, B::Output>::Second(o)),
                Err(e) => Err(e),
            };
            rs.push(y);
            proof {
                assert(item_matches(items2[j as int], rs2v[j as int]));
                assert(tagged[n1 + j] == tag_second::<A::Output, B::Output>(items2)[j as int]);
                assert(item_matches(tagged[n1 + j], rs@[n1 + j]));
            }
            j += 1;
        }
        rs
    }
}

/// When the first pipeline accepts an input, the chain behaves as the
/// first alone, wrapped in `First`, and the second contributes
/// nothing: the result and the disk are the first's.
pub proof fn lemma_chain_first_accepts<A: Asset, B: Asset>(
    c: &Chain<A, B>,
    d: DiskView,
    i: AssetInputView,
    o: A::Output,
)
    requires
        c.first.run_result(d, i) == RunOutcome::<A::Output>::Produced(o),
    ensures
        c.run_result(d, i) == RunOutcome::<ChainOutput<A::Output, B::Output>>::Produced(
            ChainOutput::<A::Output, B::Output>::First(o),
        ),
        c.run_disk(d, i) == c.first.run_disk(d, i),
{
}

/// When the first pipeline rejects an input as not its own and the
/// second accepts it, the chain behaves as the second alone, wrapped
/// in `Second`.
pub proof fn lemma_chain_second_accepts<A: Asset, B: Asset>(
    c: &Chain<A, B>,
    d: DiskView,
    i: AssetInputView,
    o: B::Output,
)
    requires
        c.first.run_result(d, i) is NotMine,
        c.second.run_result(d, i) == RunOutcome::<B::Output>::Produced(o),
    ensures
        c.run_result(d, i) == RunOutcome::<ChainOutput<A::Output, B::Output>>::Produced(
            ChainOutput::<A::Output, B::Output>::Second(o),
        ),
        c.run_disk(d, i) == c.second.run_disk(d, i),
{
    c.first.run_laws(d, i);
}

/// When both pipelines reject an input as not their own, so does the
/// chain, handing back the original input unchanged and leaving the
/// disk untouched.
pub proof fn lemma_chain_neither_matches<A: Asset, B: Asset>(
    c: &Chain<A, B>,
    d: DiskView,
    i: AssetInputView,
)
    requires
        c.first.run_result(d, i) is NotMine,
        c.second.run_result(d, i) is NotMine,
    ensures
        c.run_result(d, i) == RunOutcome::<ChainOutput<A::Output, B::Output>>::NotMine(i),
        c.run_disk(d, i) == d,
{
    c.first.run_laws(d, i);
    c.second.run_laws(d, i);
}

/// When the first pipeline fails with a genuine error, that error
/// propagates verbatim and the second pipeline contributes nothing.
pub proof fn lemma_chain_error_propagates<A: Asset, B: Asset>(
    c: &Chain<A, B>,
    d: DiskView,
    i: AssetInputView,
    ev: ErrorView,
)
    requires
        c.first.run_result(d, i) == RunOutcome::<A::Output>::Failed(ev),
    ensures
        c.run_result(d, i) == RunOutcome::<ChainOutput<A::Output, B::Output>>::Failed(ev),
        c.run_disk(d, i) == c.first.run_disk(d, i),
{
}

impl<OA: Output, OB: Output> Output for ChainOutput<OA, OB> {
    open spec fn doc_after(&self, doc: Seq<usize>) -> Seq<usize> {
        match self {
            ChainOutput::First(l) => l.doc_after(doc),
            ChainOutput::Second(r) => r.doc_after(doc),
        }
    }

    open spec fn finalize_err(&self, doc: Seq<usize>) -> Option<ErrorView> {
        match self {
            ChainOutput::First(l) => l.finalize_err(doc),
            ChainOutput::Second(r) => r.finalize_err(doc),
        }
    }

    fn finalize(self, dom: &mut Document) -> (r: Result<(), Error>) {
        match self {
            ChainOutput::First(l) => l.finalize(dom),
            ChainOutput::Second(r) => r.finalize(dom),
        }
    }
}

} // verus!
