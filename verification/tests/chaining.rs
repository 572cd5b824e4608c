//! Chain fall-through across two pipelines of different kinds.

use trunk_pipelines::{Asset, AssetInput, Chain, ChainOutput, DirPath, Disk, Error};

/// A bare pipeline owning directives of one kind; its output is the
/// directive's identity.
struct Tagged {
    kind: &'static str,
    claimed: Vec<usize>,
}

impl Tagged {
    fn new(kind: &'static str) -> Self {
        Tagged {
            kind,
            claimed: Vec::new(),
        }
    }

    fn owns(&self, input: &AssetInput) -> bool {
        input
            .attrs
            .iter()
            .any(|(k, v)| k == "rel" && v == self.kind)
    }
}

impl Asset for Tagged {
    type Output = usize;

    // The ghost members of the contract are erased before anything
    // runs; the stubs below only satisfy the compiled trait's shape.
    fn run_result(
        &self,
        _: trunk_pipelines::disk::DiskView,
        _: trunk_pipelines::input::AssetInputView,
    ) -> trunk_pipelines::asset::RunOutcome<usize> {
        unreachable!()
    }

    fn run_disk(
        &self,
        _: trunk_pipelines::disk::DiskView,
        _: trunk_pipelines::input::AssetInputView,
    ) -> trunk_pipelines::disk::DiskView {
        unreachable!()
    }

    fn push_result(
        &self,
        _: trunk_pipelines::input::AssetInputView,
    ) -> trunk_pipelines::asset::PushOutcome {
        unreachable!()
    }

    fn push_took(&self, _: Self, _: trunk_pipelines::input::AssetInputView) -> bool {
        unreachable!()
    }

    fn batch_results(
        &self,
        _: trunk_pipelines::disk::DiskView,
    ) -> vstd::seq::Seq<trunk_pipelines::asset::BatchItem<usize>> {
        unreachable!()
    }

    fn batch_disk(&self, _: trunk_pipelines::disk::DiskView) -> trunk_pipelines::disk::DiskView {
        unreachable!()
    }

    fn run_laws(
        &self,
        _: trunk_pipelines::disk::DiskView,
        _: trunk_pipelines::input::AssetInputView,
    ) {
        unreachable!()
    }

    fn push_laws(&self, _: trunk_pipelines::input::AssetInputView) {
        unreachable!()
    }

    fn run_once(&self, _disk: &mut Disk, input: AssetInput) -> Result<usize, Error> {
        if self.owns(&input) {
            Ok(input.id)
        } else {
            Err(Error::AssetNotMatched { input })
        }
    }

    fn try_push_input(&mut self, input: AssetInput) -> Result<(), Error> {
        if self.owns(&input) {
            self.claimed.push(input.id);
            Ok(())
        } else {
            Err(Error::AssetNotMatched { input })
        }
    }

    fn outputs(self, _disk: &mut Disk) -> Vec<Result<usize, Error>> {
        self.claimed.into_iter().map(Ok).collect()
    }
}

fn kind_directive(id: usize, kind: &str) -> AssetInput {
    AssetInput {
        id,
        manifest_dir: DirPath {
            abs: true,
            segs: vec!["proj".to_string()],
        },
        attrs: vec![("rel".to_string(), kind.to_string())],
    }
}

#[test]
fn chain_falls_through_to_the_second_branch() {
    let mut disk = Disk::new();
    let chain = Chain {
        first: Tagged::new("css"),
        second: Tagged::new("js"),
    };
    match chain.run_once(&mut disk, kind_directive(8, "js")) {
        Ok(ChainOutput::Second(id)) => assert_eq!(id, 8),
        _ => panic!("the second branch should have produced the output"),
    }
}

#[test]
fn chain_keeps_first_branch_priority() {
    let mut disk = Disk::new();
    let chain = Chain {
        first: Tagged::new("css"),
        second: Tagged::new("css"),
    };
    match chain.run_once(&mut disk, kind_directive(4, "css")) {
        Ok(ChainOutput::First(id)) => assert_eq!(id, 4),
        _ => panic!("the first branch owns the input"),
    }
}

#[test]
fn nested_chains_route_to_the_right_leaf() {
    let mut disk = Disk::new();
    let mut chain = Chain {
        first: Chain {
            first: Tagged::new("css"),
            second: Tagged::new("js"),
        },
        second: Tagged::new("sass"),
    };
    chain.try_push_input(kind_directive(1, "sass")).expect("sass leaf");
    chain.try_push_input(kind_directive(2, "css")).expect("css leaf");
    chain.try_push_input(kind_directive(3, "js")).expect("js leaf");
    let err = chain.try_push_input(kind_directive(4, "wasm")).unwrap_err();
    match err {
        Error::AssetNotMatched { input } => assert_eq!(input.id, 4),
        _ => panic!("an unknown kind falls out of the whole chain"),
    }
    let results = chain.outputs(&mut disk);
    let mut ids = Vec::new();
    for r in results {
        match r.expect("each leaf succeeds") {
            ChainOutput::First(ChainOutput::First(id)) => ids.push(("css", id)),
            ChainOutput::First(ChainOutput::Second(id)) => ids.push(("js", id)),
            ChainOutput::Second(id) => ids.push(("sass", id)),
        }
    }
    assert_eq!(ids, vec![("css", 2), ("js", 3), ("sass", 1)]);
}
