//! The directory-copy pipeline.
//!
//! A directive whose `rel` attribute is `copy-dir` names a source
//! directory in `href`; the pipeline copies it into the build's output
//! directory, under the name the optional `data-target-path` attribute
//! gives, or under the source directory's own name.  A target path may
//! never land the copy outside the output directory.

use crate::asset::{item_matches, Asset, BatchItem, Output, PushOutcome, RunOutcome};
use crate::disk::{disk_after_copy, find_entry, lemma_copy_frame, Disk, DiskView, EntryView};
use crate::document::Document;
use crate::error::{Error, ErrorView};
use crate::input::{attr_lookup, AssetInput, AssetInputView};
use crate::path::{href_path, join_within_spec, path_join, DirPath, PathView};
use vstd::prelude::*;

verus! {

/// The abstract value of an [`Input`].
pub struct InputView {
    pub asset: AssetInputView,
    pub path: PathView,
    pub target: Option<PathView>,
}

/// The pipeline's own typed reading of a directive: the resolved
/// source path and the optional target path.
#[derive(Debug)]
pub struct Input {
    /// The directive this reading came from.
    pub asset_input: AssetInput,
    /// The path of the directory being copied, resolved against the
    /// manifest directory when relative.
    pub path: DirPath,
    /// The optional target path inside the output directory.
    pub target_path: Option<DirPath>,
}

impl View for Input {
    type V = InputView;

    open spec fn view(&self) -> InputView {
        InputView {
            asset: self.asset_input@,
            path: self.path@,
            target: match self.target_path {
                Some(t) => Some(t@),
                None => None,
            },
        }
    }
}

impl DeepView for Input {
    type V = InputView;

    open spec fn deep_view(&self) -> InputView {
        self@
    }
}

/// What reading a directive as a copy-dir input comes to: the typed
/// input, or "not mine", or a missing source attribute.
pub open spec fn match_input(i: AssetInputView) -> Result<InputView, ErrorView> {
    if attr_lookup(i.attrs, "rel"@) != Some("copy-dir"@) {
        Err(ErrorView::AssetNotMatched { input: i })
    } else {
        match attr_lookup(i.attrs, "href"@) {
            None => Err(ErrorView::HrefNotFound { rel: "copy-dir"@ }),
            Some(h) => {
                let p0 = href_path(h);
                Ok(
                    InputView {
                        asset: i,
                        path: if p0.abs {
                            p0
                        } else {
                            path_join(i.manifest_dir, p0)
                        },
                        target: match attr_lookup(i.attrs, "data-target-path"@) {
                            None => None,
                            Some(t) => Some(href_path(t)),
                        },
                    },
                )
            },
        }
    }
}

impl Input {
    /// Reads a directive as a copy-dir input.  Rejects it as "not
    /// mine" unless `rel` is `copy-dir`; requires `href`; resolves the
    /// source path against the manifest directory; reads the optional
    /// target path.  Touches no filesystem.
    pub fn try_from(value: AssetInput) -> (r: Result<Input, Error>)
        ensures
            match match_input(value@) {
                Ok(iv) => r matches Ok(inp) && inp@ == iv,
                Err(ev) => r matches Err(e) && e@ == ev,
            },
    {
        let rel_ok = match value.attr("rel") {
            Some(v) => crate::path::str_eq(v.as_str(), "copy-dir"),
            None => false,
        };
        if !rel_ok {
            return Err(Error::AssetNotMatched { input: value });
        }
        let href: String = match value.attr("href") {
            Some(h) => h.clone(),
            None => {
                return Err(Error::HrefNotFound { rel: "copy-dir".to_owned() });
            },
        };
        let p0 = DirPath::from_href(href.as_str());
        let path = if p0.abs {
            p0
        } else {
            value.manifest_dir.join(&p0)
        };
        let target_path = match value.attr("data-target-path") {
            Some(t) => Some(DirPath::from_href(t.as_str())),
            None => None,
        };
        Ok(Input { asset_input: value, path, target_path })
    }
}

/// The configuration a copy-dir pipeline runs under.
pub trait CopyDirConfig: Sized {
    /// The build's output directory, as a value.
    spec fn output_dir_spec(&self) -> PathView;

    /// Returns the directory the build's outputs are written under.
    fn output_dir(&self) -> (p: &DirPath)
        ensures
            p@ == self.output_dir_spec(),
    ;
}

/// A minimal configuration: the output directory and nothing else.
#[derive(Debug)]
pub struct BuildConfig {
    /// The directory the build's outputs are written under.
    pub dist: DirPath,
}

impl CopyDirConfig for BuildConfig {
    open spec fn output_dir_spec(&self) -> PathView {
        self.dist@
    }

    fn output_dir(&self) -> (p: &DirPath) {
        &self.dist
    }
}

/// The output of one directory copy: it knows which directive element
/// to remove from the document once the copy is on disk.
#[derive(Debug)]
pub struct CopyDirOutput(pub usize);

impl Output for CopyDirOutput {
    open spec fn doc_after(&self, doc: Seq<usize>) -> Seq<usize> {
        doc.filter(|x: usize| x != self.0)
    }

    open spec fn finalize_err(&self, doc: Seq<usize>) -> Option<ErrorView> {
        None
    }

    fn finalize(self, dom: &mut Document) -> (r: Result<(), Error>) {
        dom.remove_element(self.0);
        Ok(())
    }
}

/// The relative path the copy is to land under: the directive's target
/// path, or the canonical source directory's own name.
pub open spec fn planned_rel(inp: InputView, en: EntryView) -> PathView {
    match inp.target {
        Some(t) => t,
        None => PathView { abs: false, segs: seq![en.canonical.segs.last()] },
    }
}

/// What one copy-dir run on a typed input returns, and what it leaves
/// of the disk: resolve the source, name the destination after the
/// target path or the canonical source's last segment, refuse a
/// destination outside the output directory, then copy.
pub open spec fn run_one(out_dir: PathView, inp: InputView, d: DiskView) -> (Result<
    CopyDirOutput,
    ErrorView,
>, DiskView) {
    match find_entry(d.entries, inp.path) {
        None => (Err(ErrorView::FsNotExist { path: inp.path }), d),
        Some(en) => {
            if en.canonical.segs.len() == 0 {
                (Err(ErrorView::PathNoFileStem { path: en.canonical }), d)
            } else {
                let rel = planned_rel(inp, en);
                match join_within_spec(out_dir, rel) {
                    None => (Err(ErrorView::TargetPathEscapes { path: rel }), d),
                    Some(dst) => (
                        (Ok(CopyDirOutput(inp.asset.id as usize))),
                        disk_after_copy(d, en.canonical, en.tree, dst),
                    ),
                }
            }
        },
    }
}

/// The results of running a whole queue in order, and what the runs
/// leave of the disk.
pub open spec fn run_batch(out_dir: PathView, inputs: Seq<InputView>, d: DiskView) -> (Seq<
    BatchItem<CopyDirOutput>,
>, DiskView)
    decreases inputs.len(),
{
    if inputs.len() == 0 {
        (Seq::empty(), d)
    } else {
        let head = run_one(out_dir, inputs.first(), d);
        let item = match head.0 {
            Ok(o) => BatchItem::Produced(o),
            Err(ev) => BatchItem::Failed(ev),
        };
        let rest = run_batch(out_dir, inputs.drop_first(), head.1);
        (seq![item] + rest.0, rest.1)
    }
}

/// Batch items as [`Asset::outputs`] reports them: results with the
/// errors abstracted to their views.
pub open spec fn items_of(rs: Seq<Result<CopyDirOutput, Error>>) -> Seq<BatchItem<CopyDirOutput>> {
    rs.map_values(
        |x: Result<CopyDirOutput, Error>|
            match x {
                Ok(o) => BatchItem::<CopyDirOutput>::Produced(o),
                Err(e) => BatchItem::<CopyDirOutput>::Failed(e@),
            },
    )
}

/// The directory-copy pipeline: its configuration and the inputs
/// claimed so far.
#[derive(Debug)]
pub struct CopyDir<C> {
    cfg: C,
    inputs: Vec<Input>,
}

impl<C: CopyDirConfig> CopyDir<C> {
    /// The output directory the pipeline writes under.
    pub closed spec fn out_dir(&self) -> PathView {
        self.cfg.output_dir_spec()
    }

    /// The typed inputs claimed so far, in order.
    pub closed spec fn queued_inputs(&self) -> Seq<InputView> {
        self.inputs.deep_view()
    }

    /// A pipeline with no inputs claimed yet.
    pub fn new(cfg: C) -> (r: Self)
        ensures
            r.out_dir() == cfg.output_dir_spec(),
            r.queued_inputs() == Seq::<InputView>::empty(),
    {
        let r = CopyDir { cfg, inputs: Vec::new() };
        proof {
            assert(r.queued_inputs() =~= Seq::<InputView>::empty());
        }
        r
    }

    /// Runs one typed input: resolves the source path, derives the
    /// destination name, refuses a destination outside the output
    /// directory, and copies the tree.
    pub fn run_with_input(cfg: &C, disk: &mut Disk, input: Input) -> (r: Result<
        CopyDirOutput,
        Error,
    >)
        ensures
            final(disk)@ == run_one(cfg.output_dir_spec(), input@, old(disk)@).1,
            match run_one(cfg.output_dir_spec(), input@, old(disk)@).0 {
                Ok(o) => r matches Ok(x) && x == o,
                Err(ev) => r matches Err(e) && e@ == ev,
            },
    {
        let Input { asset_input, path, target_path } = input;
        let (cpath, tree) = match disk.canonicalize(&path) {
            Some(pair) => pair,
            None => {
                return Err(Error::FsNotExist { path });
            },
        };
        let dir_name: String = match cpath.last_seg() {
            Some(s) => s.clone(),
            None => {
                return Err(Error::PathNoFileStem { path: cpath });
            },
        };
        let rel: DirPath = match target_path {
            Some(t) => t,
            None => {
                let r = DirPath { abs: false, segs: vec![dir_name] };
                proof {
                    assert(r@.segs =~= seq![cpath@.segs.last()]);
                }
                r
            },
        };
        let dst = match cfg.output_dir().join_within(&rel) {
            Some(p) => p,
            None => {
                return Err(Error::TargetPathEscapes { path: rel });
            },
        };
        disk.copy_tree(&cpath, tree, &dst);
        Ok(CopyDirOutput(asset_input.id))
    }
}

impl<C: CopyDirConfig> Asset for CopyDir<C> {
    type Output = CopyDirOutput;

    open spec fn run_result(&self, d: DiskView, i: AssetInputView) -> RunOutcome<CopyDirOutput> {
        match match_input(i) {
            Err(ev) => match ev {
                ErrorView::AssetNotMatched { input: j } => RunOutcome::NotMine(j),
                _ => RunOutcome::Failed(ev),
            },
            Ok(inp) => match run_one(self.out_dir(), inp, d).0 {
                Ok(o) => RunOutcome::Produced(o),
                Err(ev) => RunOutcome::Failed(ev),
            },
        }
    }

    open spec fn run_disk(&self, d: DiskView, i: AssetInputView) -> DiskView {
        match match_input(i) {
            Err(_) => d,
            Ok(inp) => run_one(self.out_dir(), inp, d).1,
        }
    }

    open spec fn push_result(&self, i: AssetInputView) -> PushOutcome {
        match match_input(i) {
            Err(ev) => match ev {
                ErrorView::AssetNotMatched { input: j } => PushOutcome::NotMine(j),
                _ => PushOutcome::Refused(ev),
            },
            Ok(_) => PushOutcome::Took,
        }
    }

    open spec fn push_took(&self, post: Self, i: AssetInputView) -> bool {
        &&& post.out_dir() == self.out_dir()
        &&& match match_input(i) {
            Ok(iv) => post.queued_inputs() == self.queued_inputs().push(iv),
            Err(_) => false,
        }
    }

    open spec fn batch_results(&self, d: DiskView) -> Seq<BatchItem<CopyDirOutput>> {
        run_batch(self.out_dir(), self.queued_inputs(), d).0
    }

    open spec fn batch_disk(&self, d: DiskView) -> DiskView {
        run_batch(self.out_dir(), self.queued_inputs(), d).1
    }

    proof fn run_laws(&self, d: DiskView, i: AssetInputView) {
    }

    proof fn push_laws(&self, i: AssetInputView) {
    }

    fn run_once(&self, disk: &mut Disk, input: AssetInput) -> (r: Result<CopyDirOutput, Error>) {
        let input = match Input::try_from(input) {
            Ok(v) => v,
            Err(e) => {
                return Err(e);
            },
        };
        Self::run_with_input(&self.cfg, disk, input)
    }

    fn try_push_input(&mut self, input: AssetInput) -> (r: Result<(), Error>) {
        let input = match Input::try_from(input) {
            Ok(v) => v,
            Err(e) => {
                return Err(e);
            },
        };
        let ghost q0 = self.queued_inputs();
        let ghost iv = input@;
        self.inputs.push(input);
        proof {
            assert(self.queued_inputs() =~= q0.push(iv));
        }
        Ok(())
    }

    fn outputs(self, disk: &mut Disk) -> (rs: Vec<Result<CopyDirOutput, Error>>) {
        let CopyDir { cfg, mut inputs } = self;
        let ghost out = cfg.output_dir_spec();
        let ghost all = inputs.deep_view();
        let ghost d0 = disk@;
        let mut rs: Vec<Result<CopyDirOutput, Error>> = Vec::new();
        proof {
            assert(inputs.deep_view() =~= all.skip(0));
        }
        let n = inputs.len();
        let mut i: usize = 0;
        while i < n
            invariant
                i <= n,
                n == all.len(),
                out == cfg.output_dir_spec(),
                inputs.deep_view() == all.skip(i as int),
                inputs.len() == n - i,
                rs@.len() == i,
                run_batch(out, all, d0).0 == items_of(rs@) + run_batch(
                    out,
                    all.skip(i as int),
                    disk@,
                ).0,
                run_batch(out, all, d0).1 == run_batch(out, all.skip(i as int), disk@).1,
            decreases n - i,
        {
            let ghost rem = all.skip(i as int);
            proof {
                assert(rem.first() == all[i as int]);
                assert(rem.drop_first() =~= all.skip(i as int + 1));
            }
            let ghost inputs0 = inputs.deep_view();
            let input = inputs.remove(0);
            proof {
                assert(input.deep_view() == inputs0[0]);
                assert(input@ == rem.first());
                assert(inputs.deep_view() =~= all.skip(i as int + 1));
            }
            let ghost dpre = disk@;
            let r = Self::run_with_input(&cfg, disk, input);
            let ghost head = run_one(out, rem.first(), dpre);
            let ghost item = match head.0 {
                Ok(o) => BatchItem::<CopyDirOutput>::Produced(o),
                Err(ev) => BatchItem::<CopyDirOutput>::Failed(ev),
            };
            let ghost rs0 = rs@;
            rs.push(r);
            proof {
                assert(run_batch(out, rem, dpre).0 == seq![item] + run_batch(
                    out,
                    rem.drop_first(),
                    head.1,
                ).0);
                assert(run_batch(out, rem, dpre).1 == run_batch(out, rem.drop_first(), head.1).1);
                assert(disk@ == head.1);
                assert(items_of(rs@) =~= items_of(rs0).push(item));
                assert(items_of(rs0) + (seq![item] + run_batch(out, rem.drop_first(), disk@).0)
                    =~= items_of(rs0).push(item) + run_batch(out, rem.drop_first(), disk@).0);
            }
            i += 1;
        }
        proof {
            assert(all.skip(n as int) =~= Seq::<InputView>::empty());
            assert(items_of(rs@) + Seq::<BatchItem<CopyDirOutput>>::empty() =~= items_of(rs@));
            assert forall|k: int| 0 <= k < rs@.len() implies item_matches(
                #[trigger] run_batch(out, all, d0).0[k],
                rs@[k],
            ) by {
                assert(run_batch(out, all, d0).0[k] == items_of(rs@)[k]);
            }
        }
        rs
    }
}

/// Finalizing a copy-dir output removes exactly the elements carrying
/// the directive's identity: none of them remains, and every other
/// element stays.
pub proof fn lemma_finalize_removes(o: &CopyDirOutput, doc: Seq<usize>)
    ensures
        !o.doc_after(doc).contains(o.0),
        forall|e: usize| doc.contains(e) && e != o.0 ==> o.doc_after(doc).contains(e),
{
    broadcast use vstd::seq_lib::group_filter_ensures;

    let out = o.doc_after(doc);
    if out.contains(o.0) {
        let k = choose|k: int| 0 <= k < out.len() && out[k] == o.0;
        assert(out[k] == o.0);
    }
    assert forall|e: usize| doc.contains(e) && e != o.0 implies out.contains(e) by {
        let i = choose|i: int| 0 <= i < doc.len() && doc[i] == e;
        assert(0 <= i < doc.len() && doc[i] == e);
    }
}

/// A run that fails copies nothing: the disk, its entries and its
/// operation record alike, is exactly what it was.
pub proof fn lemma_failed_run_writes_nothing(out_dir: PathView, inp: InputView, d: DiskView)
    ensures
        run_one(out_dir, inp, d).0 is Err ==> run_one(out_dir, inp, d).1 == d,
{
}

/// A target path that is absolute or climbs out of the output
/// directory fails with the path-escape error, and nothing is copied.
pub proof fn lemma_escaping_target_rejected(
    out_dir: PathView,
    inp: InputView,
    d: DiskView,
    en: EntryView,
    t: PathView,
)
    requires
        inp.target == Some(t),
        find_entry(d.entries, inp.path) == Some(en),
        en.canonical.segs.len() > 0,
        join_within_spec(out_dir, t) is None,
    ensures
        run_one(out_dir, inp, d).0 == Err::<CopyDirOutput, ErrorView>(
            ErrorView::TargetPathEscapes { path: t },
        ),
        run_one(out_dir, inp, d).1 == d,
{
}

/// A successful run creates the destination inside the output
/// directory, with the source's contents, records exactly that one
/// copy, and reports the directive's identity.
pub proof fn lemma_successful_run_copies(
    out_dir: PathView,
    inp: InputView,
    d: DiskView,
    en: EntryView,
)
    requires
        find_entry(d.entries, inp.path) == Some(en),
        run_one(out_dir, inp, d).0 is Ok,
    ensures
        join_within_spec(out_dir, planned_rel(inp, en)) matches Some(dst) && ({
            let d2 = run_one(out_dir, inp, d).1;
            &&& find_entry(d2.entries, dst) == Some(
                EntryView { name: dst, canonical: dst, tree: en.tree },
            )
            &&& dst.abs == out_dir.abs
            &&& dst.segs.len() >= out_dir.segs.len()
            &&& dst.segs.take(out_dir.segs.len() as int) == out_dir.segs
            &&& d2.ops == d.ops.push((en.canonical, dst))
            &&& run_one(out_dir, inp, d).0 == Ok::<CopyDirOutput, ErrorView>(
                CopyDirOutput(inp.asset.id as usize),
            )
        }),
{
    crate::path::lemma_join_within_inside(out_dir, planned_rel(inp, en));
}

/// A successful run resolves every path other than its destination as
/// before; in particular, with a destination that is not the source's
/// name, the source is untouched.
pub proof fn lemma_run_preserves_others(
    out_dir: PathView,
    inp: InputView,
    d: DiskView,
    en: EntryView,
    dst: PathView,
    p: PathView,
)
    requires
        find_entry(d.entries, inp.path) == Some(en),
        join_within_spec(out_dir, planned_rel(inp, en)) == Some(dst),
        p != dst,
    ensures
        find_entry(run_one(out_dir, inp, d).1.entries, p) == find_entry(d.entries, p),
{
    if en.canonical.segs.len() > 0 {
        lemma_copy_frame(d, en.canonical, en.tree, dst, p);
    }
}

/// Runs are deterministic in what the source resolves to: two runs of
/// one input on disks that resolve its source alike return the same
/// result, and a successful pair writes the same destination entry —
/// running an unchanged directive twice lands the same contents in the
/// same place.
pub proof fn lemma_run_deterministic(
    out_dir: PathView,
    inp: InputView,
    d0: DiskView,
    d1: DiskView,
)
    requires
        find_entry(d1.entries, inp.path) == find_entry(d0.entries, inp.path),
    ensures
        run_one(out_dir, inp, d1).0 == run_one(out_dir, inp, d0).0,
        run_one(out_dir, inp, d0).0 is Ok ==> run_one(out_dir, inp, d1).1.entries.last()
            == run_one(out_dir, inp, d0).1.entries.last(),
{
}

/// A batch yields one result per queued input, in submission order:
/// the `k`-th result answers the `k`-th input, and a success carries
/// that input's directive identity.
pub proof fn lemma_batch_order(out_dir: PathView, inputs: Seq<InputView>, d: DiskView)
    ensures
        run_batch(out_dir, inputs, d).0.len() == inputs.len(),
        forall|k: int|
            0 <= k < inputs.len() ==> match #[trigger] run_batch(out_dir, inputs, d).0[k] {
                BatchItem::Produced(o) => o.0 == inputs[k].asset.id as usize,
                BatchItem::Failed(_) => true,
            },
    decreases inputs.len(),
{
    if inputs.len() > 0 {
        let head = run_one(out_dir, inputs.first(), d);
        lemma_batch_order(out_dir, inputs.drop_first(), head.1);
        let whole = run_batch(out_dir, inputs, d).0;
        let rest = run_batch(out_dir, inputs.drop_first(), head.1).0;
        assert forall|k: int| 0 <= k < inputs.len() implies match #[trigger] whole[k] {
            BatchItem::Produced(o) => o.0 == inputs[k].asset.id as usize,
            BatchItem::Failed(_) => true,
        } by {
            if k > 0 {
                assert(whole[k] == rest[k - 1]);
                assert(inputs.drop_first()[k - 1] == inputs[k]);
            }
        }
    }
}

} // verus!
