//! End-to-end behaviour of the pipelines against the disk model.

use trunk_pipelines::copy_dir::Input;
use trunk_pipelines::{
    parse_public_url, Asset, AssetInput, BuildConfig, Chain, ChainOutput, CopyDir, Disk, DiskEntry,
    Document, Error, Output,
};
use trunk_pipelines::DirPath;

fn path(abs: bool, segs: &[&str]) -> DirPath {
    DirPath {
        abs,
        segs: segs.iter().map(|s| s.to_string()).collect(),
    }
}

fn directive(id: usize, manifest: &[&str], attrs: &[(&str, &str)]) -> AssetInput {
    AssetInput {
        id,
        manifest_dir: path(true, manifest),
        attrs: attrs
            .iter()
            .map(|(k, v)| (k.to_string(), v.to_string()))
            .collect(),
    }
}

fn copy_dir_directive(id: usize, href: &str) -> AssetInput {
    directive(id, &["proj"], &[("rel", "copy-dir"), ("href", href)])
}

fn disk_with_data(tree: u64) -> Disk {
    let mut disk = Disk::new();
    disk.add_dir(DiskEntry {
        name: path(true, &["proj", "fixtures", "data"]),
        canonical: path(true, &["proj", "fixtures", "data"]),
        tree,
    });
    disk
}

fn dist_pipeline() -> CopyDir<BuildConfig> {
    CopyDir::new(BuildConfig {
        dist: path(true, &["proj", "dist"]),
    })
}

#[test]
fn run_once_copies_into_dist() {
    let mut disk = disk_with_data(42);
    let pipeline = dist_pipeline();
    let out = pipeline
        .run_once(&mut disk, copy_dir_directive(7, "fixtures/data"))
        .expect("the copy should succeed");
    assert_eq!(out.0, 7);
    let dest = path(true, &["proj", "dist", "data"]);
    let (canonical, tree) = disk.canonicalize(&dest).expect("destination should exist");
    assert!(canonical.same_as(&dest));
    assert_eq!(tree, 42);
    assert_eq!(disk.op_count(), 1);
    let (src, dst) = disk.op_at(0);
    assert!(src.same_as(&path(true, &["proj", "fixtures", "data"])));
    assert!(dst.same_as(&dest));
}

#[test]
fn finalize_removes_the_directive_element() {
    let mut disk = disk_with_data(42);
    let pipeline = dist_pipeline();
    let out = pipeline
        .run_once(&mut disk, copy_dir_directive(7, "fixtures/data"))
        .expect("the copy should succeed");
    let mut dom = Document::new();
    dom.push_element(3);
    dom.push_element(7);
    out.finalize(&mut dom).expect("finalize never fails");
    assert!(dom.contains(3));
    assert!(!dom.contains(7));
}

#[test]
fn escaping_target_path_is_rejected_without_writing() {
    let mut disk = disk_with_data(42);
    let pipeline = dist_pipeline();
    let input = directive(
        7,
        &["proj"],
        &[
            ("rel", "copy-dir"),
            ("href", "fixtures/data"),
            ("data-target-path", "../escape"),
        ],
    );
    let err = pipeline.run_once(&mut disk, input).unwrap_err();
    assert!(matches!(err, Error::TargetPathEscapes { .. }));
    assert_eq!(disk.op_count(), 0);
    assert!(disk.canonicalize(&path(true, &["proj", "dist", "escape"])).is_none());
}

#[test]
fn absolute_target_path_is_rejected() {
    let mut disk = disk_with_data(42);
    let pipeline = dist_pipeline();
    let input = directive(
        7,
        &["proj"],
        &[
            ("rel", "copy-dir"),
            ("href", "fixtures/data"),
            ("data-target-path", "/elsewhere"),
        ],
    );
    let err = pipeline.run_once(&mut disk, input).unwrap_err();
    assert!(matches!(err, Error::TargetPathEscapes { .. }));
    assert_eq!(disk.op_count(), 0);
}

#[test]
fn dotted_target_path_inside_dist_is_accepted() {
    let mut disk = disk_with_data(42);
    let pipeline = dist_pipeline();
    let input = directive(
        7,
        &["proj"],
        &[
            ("rel", "copy-dir"),
            ("href", "fixtures/data"),
            ("data-target-path", "a/../b/./c"),
        ],
    );
    pipeline.run_once(&mut disk, input).expect("stays inside dist");
    let dest = path(true, &["proj", "dist", "b", "c"]);
    assert!(disk.canonicalize(&dest).is_some());
}

#[test]
fn batch_results_keep_submission_order() {
    let mut disk = Disk::new();
    for name in ["a", "b", "c"] {
        disk.add_dir(DiskEntry {
            name: path(true, &["proj", name]),
            canonical: path(true, &["proj", name]),
            tree: 1,
        });
    }
    let mut pipeline = dist_pipeline();
    pipeline
        .try_push_input(copy_dir_directive(11, "a"))
        .expect("first claim");
    pipeline
        .try_push_input(copy_dir_directive(12, "b"))
        .expect("second claim");
    pipeline
        .try_push_input(copy_dir_directive(13, "c"))
        .expect("third claim");
    let results = pipeline.outputs(&mut disk);
    let ids: Vec<usize> = results
        .into_iter()
        .map(|r| r.expect("every copy should succeed").0)
        .collect();
    assert_eq!(ids, vec![11, 12, 13]);
}

#[test]
fn running_twice_is_idempotent() {
    let mut disk = disk_with_data(42);
    let pipeline = dist_pipeline();
    pipeline
        .run_once(&mut disk, copy_dir_directive(1, "fixtures/data"))
        .expect("first run");
    pipeline
        .run_once(&mut disk, copy_dir_directive(1, "fixtures/data"))
        .expect("second run");
    // The source is untouched and the destination holds its contents.
    let src = path(true, &["proj", "fixtures", "data"]);
    let dest = path(true, &["proj", "dist", "data"]);
    assert_eq!(disk.canonicalize(&src).unwrap().1, 42);
    assert_eq!(disk.canonicalize(&dest).unwrap().1, 42);
    assert_eq!(disk.op_count(), 2);
    let (s0, d0) = disk.op_at(0);
    let (s1, d1) = disk.op_at(1);
    assert!(s0.same_as(s1));
    assert!(d0.same_as(d1));
}

#[test]
fn unmatched_kind_hands_the_input_back() {
    let mut disk = disk_with_data(42);
    let pipeline = dist_pipeline();
    let input = directive(9, &["proj"], &[("rel", "stylesheet"), ("href", "x")]);
    let err = pipeline.run_once(&mut disk, input).unwrap_err();
    match err {
        Error::AssetNotMatched { input } => {
            assert_eq!(input.id, 9);
            assert_eq!(input.attrs.len(), 2);
            assert_eq!(input.attrs[0].1, "stylesheet");
        }
        other => panic!("expected AssetNotMatched, got {}", other.kind_name()),
    }
}

#[test]
fn missing_href_is_a_genuine_failure() {
    let mut disk = disk_with_data(42);
    let pipeline = dist_pipeline();
    let input = directive(9, &["proj"], &[("rel", "copy-dir")]);
    let err = pipeline.run_once(&mut disk, input).unwrap_err();
    assert!(matches!(err, Error::HrefNotFound { .. }));
}

#[test]
fn missing_source_directory_fails() {
    let mut disk = Disk::new();
    let pipeline = dist_pipeline();
    let err = pipeline
        .run_once(&mut disk, copy_dir_directive(1, "fixtures/data"))
        .unwrap_err();
    assert!(matches!(err, Error::FsNotExist { .. }));
}

#[test]
fn source_resolving_to_the_root_has_no_stem() {
    let mut disk = Disk::new();
    disk.add_dir(DiskEntry {
        name: path(true, &["proj", "fixtures", "data"]),
        canonical: path(true, &[]),
        tree: 1,
    });
    let pipeline = dist_pipeline();
    let err = pipeline
        .run_once(&mut disk, copy_dir_directive(1, "fixtures/data"))
        .unwrap_err();
    assert!(matches!(err, Error::PathNoFileStem { .. }));
}

#[test]
fn chain_first_branch_wins_when_it_matches() {
    let mut disk = disk_with_data(42);
    let chain = Chain {
        first: dist_pipeline(),
        second: CopyDir::new(BuildConfig {
            dist: path(true, &["proj", "other"]),
        }),
    };
    let out = chain
        .run_once(&mut disk, copy_dir_directive(5, "fixtures/data"))
        .expect("the first branch should run the input");
    match out {
        ChainOutput::First(o) => assert_eq!(o.0, 5),
        ChainOutput::Second(_) => panic!("the second branch must not be used"),
    }
    // The copy went under the first branch's output directory.
    assert!(disk
        .canonicalize(&path(true, &["proj", "dist", "data"]))
        .is_some());
    assert!(disk
        .canonicalize(&path(true, &["proj", "other", "data"]))
        .is_none());
}

#[test]
fn chain_hands_back_an_input_neither_branch_owns() {
    let mut disk = disk_with_data(42);
    let chain = Chain {
        first: dist_pipeline(),
        second: dist_pipeline(),
    };
    let input = directive(9, &["proj"], &[("rel", "stylesheet"), ("href", "x")]);
    let err = chain.run_once(&mut disk, input).unwrap_err();
    match err {
        Error::AssetNotMatched { input } => assert_eq!(input.id, 9),
        other => panic!("expected AssetNotMatched, got {}", other.kind_name()),
    }
    assert_eq!(disk.op_count(), 0);
}

#[test]
fn chain_propagates_a_genuine_error_verbatim() {
    let mut disk = disk_with_data(42);
    let chain = Chain {
        first: dist_pipeline(),
        second: dist_pipeline(),
    };
    // The kind matches the first branch, so its missing-href failure
    // must propagate instead of being retried on the second branch.
    let input = directive(9, &["proj"], &[("rel", "copy-dir")]);
    let err = chain.run_once(&mut disk, input).unwrap_err();
    assert!(matches!(err, Error::HrefNotFound { .. }));
}

#[test]
fn chain_claims_and_batches_through_both_branches() {
    let mut disk = Disk::new();
    for name in ["a", "b"] {
        disk.add_dir(DiskEntry {
            name: path(true, &["proj", name]),
            canonical: path(true, &["proj", name]),
            tree: 1,
        });
    }
    let mut chain = Chain {
        first: dist_pipeline(),
        second: dist_pipeline(),
    };
    chain
        .try_push_input(copy_dir_directive(1, "a"))
        .expect("claimed by the first branch");
    chain
        .try_push_input(copy_dir_directive(2, "b"))
        .expect("claimed by the first branch");
    let unmatched = directive(3, &["proj"], &[("rel", "stylesheet")]);
    assert!(matches!(
        chain.try_push_input(unmatched),
        Err(Error::AssetNotMatched { .. })
    ));
    let results = chain.outputs(&mut disk);
    assert_eq!(results.len(), 2);
    for (r, want) in results.into_iter().zip([1usize, 2]) {
        match r.expect("each copy should succeed") {
            ChainOutput::First(o) => assert_eq!(o.0, want),
            ChainOutput::Second(_) => panic!("all inputs went to the first branch"),
        }
    }
}

#[test]
fn chain_finalize_delegates_to_the_branch() {
    let out: ChainOutput<trunk_pipelines::CopyDirOutput, trunk_pipelines::CopyDirOutput> =
        ChainOutput::First(trunk_pipelines::CopyDirOutput(4));
    let mut dom = Document::new();
    dom.push_element(4);
    dom.push_element(5);
    out.finalize(&mut dom).expect("finalize never fails");
    assert!(!dom.contains(4));
    assert!(dom.contains(5));
}

#[test]
fn try_from_resolves_relative_href_against_manifest_dir() {
    let input = copy_dir_directive(1, "fixtures/data");
    let typed = Input::try_from(input).expect("a matching directive converts");
    assert!(typed.path.same_as(&path(true, &["proj", "fixtures", "data"])));
    assert!(typed.target_path.is_none());
}

#[test]
fn try_from_keeps_an_absolute_href_as_it_is() {
    let input = directive(1, &["proj"], &[("rel", "copy-dir"), ("href", "/srv/data")]);
    let typed = Input::try_from(input).expect("a matching directive converts");
    assert!(typed.path.same_as(&path(true, &["srv", "data"])));
}

#[test]
fn try_from_reads_the_target_path() {
    let input = directive(
        1,
        &["proj"],
        &[
            ("rel", "copy-dir"),
            ("href", "d"),
            ("data-target-path", "nested/place"),
        ],
    );
    let typed = Input::try_from(input).expect("a matching directive converts");
    let target = typed.target_path.expect("the target path is read");
    assert!(target.same_as(&path(false, &["nested", "place"])));
}

#[test]
fn href_splitting_drops_empty_parts() {
    let p = DirPath::from_href("/a//b/");
    assert!(p.abs);
    assert_eq!(p.segs, vec!["a".to_string(), "b".to_string()]);
    let q = DirPath::from_href("fixtures/data");
    assert!(!q.abs);
    assert_eq!(q.segs, vec!["fixtures".to_string(), "data".to_string()]);
}

#[test]
fn join_within_refuses_climbing_out() {
    let base = path(true, &["proj", "dist"]);
    assert!(base.join_within(&path(false, &["..", "escape"])).is_none());
    assert!(base.join_within(&path(true, &["escape"])).is_none());
    let inside = base
        .join_within(&path(false, &["a", "..", "b"]))
        .expect("normalizes inside the base");
    assert!(inside.same_as(&path(true, &["proj", "dist", "b"])));
}

#[test]
fn later_disk_entries_shadow_earlier_ones() {
    let mut disk = Disk::new();
    let name = path(true, &["proj", "x"]);
    disk.add_dir(DiskEntry {
        name: name.clone(),
        canonical: name.clone(),
        tree: 1,
    });
    disk.add_dir(DiskEntry {
        name: name.clone(),
        canonical: name.clone(),
        tree: 2,
    });
    assert_eq!(disk.canonicalize(&name).unwrap().1, 2);
}

#[test]
fn parse_public_url_brackets_with_slashes() {
    assert_eq!(parse_public_url("foo"), "/foo/");
    assert_eq!(parse_public_url("/foo"), "/foo/");
    assert_eq!(parse_public_url("foo/"), "/foo/");
    assert_eq!(parse_public_url("/foo/"), "/foo/");
    assert_eq!(parse_public_url(""), "//");
}

#[test]
fn directives_and_paths_can_be_built_incrementally() {
    let mut manifest = DirPath::empty(true);
    manifest.push_seg("proj".to_string());
    let mut input = AssetInput::new(7, manifest);
    input.push_attr("rel".to_string(), "copy-dir".to_string());
    input.push_attr("href".to_string(), "fixtures/data".to_string());
    assert_eq!(input.attr("rel").map(|s| s.as_str()), Some("copy-dir"));
    assert_eq!(input.attr("data-target-path"), None);
    let mut disk = disk_with_data(9);
    let out = dist_pipeline()
        .run_once(&mut disk, input)
        .expect("the built directive runs like a literal one");
    assert_eq!(out.0, 7);
}

#[test]
fn error_kinds_have_names() {
    assert_eq!(Error::TaskFailed.kind_name(), "background task failed");
    let e = Error::FsNotExist {
        path: path(true, &["x"]),
    };
    assert_eq!(e.kind_name(), "path does not exist");
}
