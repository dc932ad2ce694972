//! Which package a file belongs to.

use egregore::crate_attribution::{
    ancestor_dirs, apply_crate_attribution, CrateAttributionIndex, ManifestPackageFact,
    ManifestParseOutcome,
};
use egregore::ir::{
    CrateAttribution, CrateAttributionReason, CrateAttributionStatus, GraphRecord, NodeKind,
    NodeRecord,
};

fn package(path: &str, name: &str) -> ManifestPackageFact {
    ManifestPackageFact::new(
        path,
        ManifestParseOutcome::Package {
            name: name.to_owned(),
        },
    )
}

fn virtual_manifest(path: &str) -> ManifestPackageFact {
    ManifestPackageFact::new(path, ManifestParseOutcome::Virtual)
}

fn resolved(index: &CrateAttributionIndex, path: &str) -> Option<String> {
    index.attribution_for(path).package_name
}

fn reason(index: &CrateAttributionIndex, path: &str) -> Option<CrateAttributionReason> {
    index.attribution_for(path).unattributed_reason
}

#[test]
fn nearest_manifest_wins_over_ancestor() {
    let index = CrateAttributionIndex::from_facts(vec![
        package("crates/outer/Cargo.toml", "outer"),
        package("crates/outer/vendor/inner/Cargo.toml", "inner"),
    ]);
    assert_eq!(
        resolved(&index, "crates/outer/vendor/inner/src/lib.rs").as_deref(),
        Some("inner")
    );
    assert_eq!(
        resolved(&index, "crates/outer/src/lib.rs").as_deref(),
        Some("outer")
    );
    // NEGATIVE: nothing under the nested crate may be claimed by the parent.
    for path in [
        "crates/outer/vendor/inner/src/lib.rs",
        "crates/outer/vendor/inner/src/deep/mod.rs",
        "crates/outer/vendor/inner/build.rs",
    ] {
        assert_ne!(
            resolved(&index, path).as_deref(),
            Some("outer"),
            "{path} must not be claimed by the parent crate"
        );
    }
}

#[test]
fn sibling_prefix_never_bleeds() {
    let index = CrateAttributionIndex::from_facts(vec![
        package("crates/foo/Cargo.toml", "foo"),
        package("crates/foobar/Cargo.toml", "foobar"),
    ]);
    assert_eq!(
        resolved(&index, "crates/foobar/src/lib.rs").as_deref(),
        Some("foobar")
    );
    assert_eq!(
        resolved(&index, "crates/foo/src/lib.rs").as_deref(),
        Some("foo")
    );
    // NEGATIVE: zero `crates/foobar/**` paths resolve to `foo`.
    let bleeds = [
        "crates/foobar/src/lib.rs",
        "crates/foobar/src/a/b.rs",
        "crates/foobar/tests/t.rs",
    ]
    .into_iter()
    .filter(|path| resolved(&index, path).as_deref() == Some("foo"))
    .count();
    assert_eq!(bleeds, 0, "sibling prefix bleed detected");
}

#[test]
fn virtual_manifest_is_walked_past_to_ancestor_package() {
    let index = CrateAttributionIndex::from_facts(vec![
        package("Cargo.toml", "root"),
        virtual_manifest("crates/Cargo.toml"),
        package("crates/a/Cargo.toml", "a"),
    ]);
    assert_eq!(resolved(&index, "crates/a/src/x.rs").as_deref(), Some("a"));
    // A file directly under the virtual manifest falls through to the root
    // package — the virtual manifest never stops the walk.
    assert_eq!(resolved(&index, "crates/stray.rs").as_deref(), Some("root"));
}

#[test]
fn stray_under_virtual_root_only_is_virtual_manifest_only() {
    let index = CrateAttributionIndex::from_facts(vec![
        virtual_manifest("Cargo.toml"),
        package("crates/a/Cargo.toml", "a"),
    ]);
    let attribution = index.attribution_for("scripts/gen.rs");
    assert_eq!(attribution.status, CrateAttributionStatus::Unattributed);
    assert_eq!(
        attribution.unattributed_reason,
        Some(CrateAttributionReason::VirtualManifestOnly)
    );
    assert!(attribution.package_name.is_none());
    assert!(attribution.manifest_repo_relative_path.is_none());
}

#[test]
fn stray_with_no_manifest_anywhere_is_no_enclosing_manifest() {
    let index = CrateAttributionIndex::from_facts(Vec::new());
    assert_eq!(
        reason(&index, "scripts/gen.rs"),
        Some(CrateAttributionReason::NoEnclosingManifest)
    );
}

#[test]
fn unparseable_ancestor_stops_walk_fail_closed() {
    let index = CrateAttributionIndex::from_facts(vec![
        package("Cargo.toml", "root"),
        ManifestPackageFact::new("crates/foo/Cargo.toml", ManifestParseOutcome::Unparseable),
    ]);
    assert_eq!(
        reason(&index, "crates/foo/src/lib.rs"),
        Some(CrateAttributionReason::UnparseableManifest)
    );
    // NEGATIVE: never inherits the ancestor's name across the broken boundary.
    assert_eq!(resolved(&index, "crates/foo/src/lib.rs"), None);
}

#[test]
fn unreadable_ancestor_stops_walk_fail_closed() {
    let index = CrateAttributionIndex::from_facts(vec![
        package("Cargo.toml", "root"),
        ManifestPackageFact::new("crates/foo/Cargo.toml", ManifestParseOutcome::Unreadable),
    ]);
    assert_eq!(
        reason(&index, "crates/foo/src/lib.rs"),
        Some(CrateAttributionReason::ManifestUnreadable)
    );
    assert_eq!(resolved(&index, "crates/foo/src/lib.rs"), None);
}

#[test]
fn unnamed_package_is_distinguished_from_virtual() {
    let index = CrateAttributionIndex::from_facts(vec![
        package("Cargo.toml", "root"),
        ManifestPackageFact::new(
            "crates/named/Cargo.toml",
            ManifestParseOutcome::UnnamedPackage,
        ),
        virtual_manifest("crates/virt/Cargo.toml"),
    ]);
    // An unnamed `[package]` STOPS the walk: it declares a package we
    // cannot name, so inheriting `root` would be a fabricated fact.
    assert_eq!(
        reason(&index, "crates/named/src/lib.rs"),
        Some(CrateAttributionReason::UnnamedPackage)
    );
    // A virtual manifest declares no package: walk past it to `root`.
    assert_eq!(
        resolved(&index, "crates/virt/src/lib.rs").as_deref(),
        Some("root")
    );
}

#[test]
fn package_name_never_derived_from_directory_name() {
    let index = CrateAttributionIndex::from_facts(vec![package(
        "crates/widget-dir/Cargo.toml",
        "totally-different",
    )]);
    assert_eq!(
        resolved(&index, "crates/widget-dir/src/lib.rs").as_deref(),
        Some("totally-different")
    );
    assert!(
        !index.package_names().contains(&"widget-dir"),
        "a directory name must never surface as a package name"
    );
}

#[test]
fn repo_root_package_attributes_root_and_nested_files() {
    let index = CrateAttributionIndex::from_facts(vec![package("Cargo.toml", "r")]);
    for path in ["src/lib.rs", "build.rs", "src/a/b/c.rs", "tests/t.rs"] {
        assert_eq!(
            resolved(&index, path).as_deref(),
            Some("r"),
            "{path} must be owned by the root package"
        );
    }
}

#[test]
fn attributed_carries_both_name_and_manifest_path() {
    let index =
        CrateAttributionIndex::from_facts(vec![package("crates/foo/Cargo.toml", "foo")]);
    let attribution = index.attribution_for("crates/foo/src/lib.rs");
    assert_eq!(attribution.status, CrateAttributionStatus::Attributed);
    assert_eq!(attribution.package_name.as_deref(), Some("foo"));
    assert_eq!(
        attribution.manifest_repo_relative_path.as_deref(),
        Some("crates/foo/Cargo.toml")
    );
    assert!(attribution.unattributed_reason.is_none());
}

#[test]
fn manifest_self_attributes_to_its_own_package() {
    let index =
        CrateAttributionIndex::from_facts(vec![package("crates/foo/Cargo.toml", "foo")]);
    // The nearest enclosing manifest of a manifest is itself.
    assert_eq!(
        resolved(&index, "crates/foo/Cargo.toml").as_deref(),
        Some("foo")
    );
}

#[test]
fn index_is_identical_from_shuffled_fact_order() {
    let facts = vec![
        package("Cargo.toml", "root"),
        virtual_manifest("crates/Cargo.toml"),
        package("crates/a/Cargo.toml", "a"),
        package("crates/ab/Cargo.toml", "ab"),
        ManifestPackageFact::new("crates/bad/Cargo.toml", ManifestParseOutcome::Unparseable),
    ];
    let probes = [
        "crates/a/src/lib.rs",
        "crates/ab/src/lib.rs",
        "crates/bad/src/lib.rs",
        "crates/loose.rs",
        "src/main.rs",
        "README.md",
    ];
    let mut permutations = vec![facts.clone()];
    let mut rotated = facts.clone();
    rotated.rotate_left(2);
    permutations.push(rotated);
    let mut reversed = facts;
    reversed.reverse();
    permutations.push(reversed);

    let baseline: Vec<CrateAttribution> = {
        let index = CrateAttributionIndex::from_facts(permutations[0].clone());
        probes.iter().map(|p| index.attribution_for(p)).collect()
    };
    for permutation in permutations {
        let index = CrateAttributionIndex::from_facts(permutation);
        let observed: Vec<CrateAttribution> =
            probes.iter().map(|p| index.attribution_for(p)).collect();
        assert_eq!(observed, baseline, "index must be order-independent");
    }
}

#[test]
fn duplicate_dir_facts_resolve_to_lexicographically_smallest_manifest() {
    // Two facts claiming the same directory (only reachable via a caller
    // bug or a case-insensitive filesystem); the winner must be stable.
    let facts = vec![
        package("crates/foo/Cargo.toml", "second"),
        ManifestPackageFact::new(
            "crates/foo/Cargo.toml",
            ManifestParseOutcome::Package {
                name: "first".to_owned(),
            },
        ),
    ];
    for _ in 0..5 {
        let index = CrateAttributionIndex::from_facts(facts.clone());
        assert_eq!(
            resolved(&index, "crates/foo/src/lib.rs").as_deref(),
            Some("first"),
            "duplicate directory facts must resolve deterministically"
        );
    }
}

#[test]
fn unusable_manifest_paths_are_dropped_not_relocated() {
    let index = CrateAttributionIndex::from_facts(vec![
        package("Cargo.toml", "root"),
        // Escaping, absolute, and backslash-separated paths are dropped
        // rather than reinterpreted across a manifest boundary.
        package("../outside/Cargo.toml", "outside"),
        package("/abs/Cargo.toml", "abs"),
        package(r"crates\win\Cargo.toml", "win"),
    ]);
    let names = index.package_names();
    assert_eq!(names, vec!["root"]);
    assert_eq!(resolved(&index, "src/lib.rs").as_deref(), Some("root"));
}

#[test]
fn attributed_iff_package_name_and_manifest_present() {
    let index = CrateAttributionIndex::from_facts(vec![
        package("crates/a/Cargo.toml", "a"),
        virtual_manifest("Cargo.toml"),
        ManifestPackageFact::new("crates/bad/Cargo.toml", ManifestParseOutcome::Unparseable),
        ManifestPackageFact::new("crates/nn/Cargo.toml", ManifestParseOutcome::UnnamedPackage),
        ManifestPackageFact::new("crates/ur/Cargo.toml", ManifestParseOutcome::Unreadable),
    ]);
    for path in [
        "crates/a/src/lib.rs",
        "crates/bad/src/lib.rs",
        "crates/nn/src/lib.rs",
        "crates/ur/src/lib.rs",
        "loose.rs",
    ] {
        let attribution = index.attribution_for(path);
        match attribution.status {
            CrateAttributionStatus::Attributed => {
                assert!(attribution.package_name.is_some(), "{path}");
                assert!(attribution.manifest_repo_relative_path.is_some(), "{path}");
                assert!(attribution.unattributed_reason.is_none(), "{path}");
            }
            CrateAttributionStatus::Unattributed => {
                assert!(attribution.package_name.is_none(), "{path}");
                assert!(attribution.manifest_repo_relative_path.is_none(), "{path}");
                assert!(attribution.unattributed_reason.is_some(), "{path}");
            }
        }
    }
}

#[test]
fn package_names_are_sorted_and_deduplicated() {
    let index = CrateAttributionIndex::from_facts(vec![
        package("crates/z/Cargo.toml", "zeta"),
        package("crates/a/Cargo.toml", "alpha"),
        package("crates/dup/Cargo.toml", "alpha"),
        virtual_manifest("Cargo.toml"),
    ]);
    assert_eq!(index.package_names(), vec!["alpha", "zeta"]);
}

#[test]
fn adding_a_deeper_manifest_only_narrows_attribution() {
    // Property: a manifest strictly deeper than the current winner changes
    // the answer only for paths under it, and only to that manifest.
    let base = vec![package("crates/a/Cargo.toml", "a")];
    let deeper = {
        let mut facts = base.clone();
        facts.push(package("crates/a/sub/Cargo.toml", "sub"));
        facts
    };
    let base_index = CrateAttributionIndex::from_facts(base);
    let deeper_index = CrateAttributionIndex::from_facts(deeper);
    for path in ["crates/a/src/lib.rs", "crates/a/x.rs", "other/y.rs"] {
        assert_eq!(
            base_index.attribution_for(path),
            deeper_index.attribution_for(path),
            "{path} is outside the added manifest's subtree"
        );
    }
    assert_eq!(
        resolved(&deeper_index, "crates/a/sub/src/lib.rs").as_deref(),
        Some("sub")
    );
}

#[test]
fn adding_a_shallower_manifest_never_changes_a_resolved_answer() {
    let base = vec![package("crates/a/Cargo.toml", "a")];
    let shallower = {
        let mut facts = base.clone();
        facts.push(package("Cargo.toml", "root"));
        facts
    };
    let base_index = CrateAttributionIndex::from_facts(base);
    let shallower_index = CrateAttributionIndex::from_facts(shallower);
    for path in ["crates/a/src/lib.rs", "crates/a/deep/x.rs"] {
        assert_eq!(
            base_index.attribution_for(path),
            shallower_index.attribution_for(path),
            "{path} already resolved at a deeper manifest"
        );
    }
}

#[test]
fn ancestor_dirs_are_segment_aware_and_root_terminated() {
    assert_eq!(
        ancestor_dirs("crates/foo/src/lib.rs"),
        vec![
            "crates/foo/src".to_owned(),
            "crates/foo".to_owned(),
            "crates".to_owned(),
            String::new(),
        ]
    );
    assert_eq!(ancestor_dirs("lib.rs"), vec![String::new()]);
    assert_eq!(ancestor_dirs(""), vec![String::new()]);
}

fn node(id: &str, kind: NodeKind, path: Option<&str>) -> GraphRecord {
    let mut n = NodeRecord::blank(id.to_owned(), kind, 1, "a node".to_owned());
    n.repo_relative_path = path.map(str::to_owned);
    GraphRecord::Node(n)
}

fn attribution_of(record: &GraphRecord) -> Option<&CrateAttribution> {
    match record {
        GraphRecord::Node(n) => n.crate_attribution.as_ref(),
        _ => None,
    }
}

#[test]
fn only_nodes_of_code_with_a_path_are_stamped() {
    let index = CrateAttributionIndex::from_facts(vec![package("crates/a/Cargo.toml", "a")]);
    let mut records = vec![
        node("n1", NodeKind::Symbol, Some("crates/a/src/lib.rs")),
        node("n2", NodeKind::File, None),
        node("n3", NodeKind::Task, Some("crates/a/src/lib.rs")),
        node("n4", NodeKind::File, Some("other.rs")),
    ];
    apply_crate_attribution(&mut records, &index);
    assert_eq!(
        attribution_of(&records[0]).and_then(|a| a.package_name.as_deref()),
        Some("a")
    );
    assert!(attribution_of(&records[1]).is_none());
    assert!(attribution_of(&records[2]).is_none());
    assert_eq!(
        attribution_of(&records[3]).and_then(|a| a.unattributed_reason),
        Some(CrateAttributionReason::NoEnclosingManifest)
    );
    assert_eq!(records[0].id(), "n1");
}

#[test]
fn an_index_without_manifests_is_empty() {
    assert!(CrateAttributionIndex::from_facts(Vec::new()).is_empty());
    assert!(!CrateAttributionIndex::from_facts(vec![package("Cargo.toml", "r")]).is_empty());
}
