use rls_analysis::freshness::{needs_load, Freshness, KnownTimestamps, Listing, ListingKind};
use rls_analysis::model::{Analysis, Crate, DefKind, Format, Target};
use rustc_serialize::json::Json;
use std::collections::HashMap;

fn empty_analysis() -> Analysis {
    Analysis {
        kind: Format::Json,
        prelude: None,
        imports: vec![],
        defs: vec![],
        refs: vec![],
        macro_refs: vec![],
    }
}

fn file(path: &str, t: u128) -> Listing {
    Listing { kind: ListingKind::File(t), path: path.to_string() }
}

fn dir(path: &str) -> Listing {
    Listing { kind: ListingKind::Directory, path: path.to_string() }
}

/// Decodes every artifact except those whose path mentions "bad".
fn decode(p: &String) -> Option<Analysis> {
    if p.contains("bad") {
        None
    } else {
        Some(empty_analysis())
    }
}

fn paths(units: &[Crate]) -> Vec<String> {
    let mut v: Vec<String> = units.iter().map(|c| c.path.clone()).collect();
    v.sort();
    v
}

fn count(units: &[Crate], p: &str) -> usize {
    units.iter().filter(|c| c.path == p).count()
}

#[test]
fn scenario_two_roots_newer_unseen_pinned() {
    let mut known = KnownTimestamps::new();
    known.set("a/u1".to_string(), Freshness::KnownAt(50));
    known.set("b/u2".to_string(), Freshness::Pinned);
    let roots = vec![
        Some(vec![file("a/u1", 100), file("a/u3", 7)]),
        Some(vec![file("b/u2", 100)]),
    ];
    let units = Analysis::read_incremental(&roots, &known, decode);
    assert_eq!(paths(&units), vec!["a/u1".to_string(), "a/u3".to_string()]);
    let u1 = units.iter().find(|c| c.path == "a/u1").unwrap();
    assert_eq!(u1.timestamp, 100);
    let u3 = units.iter().find(|c| c.path == "a/u3").unwrap();
    assert_eq!(u3.timestamp, 7);
}

#[test]
fn malformed_artifact_skipped_siblings_loaded() {
    let known = KnownTimestamps::new();
    let roots = vec![
        Some(vec![file("a/good1", 1), file("a/bad", 2), file("a/good2", 3)]),
        Some(vec![file("b/good3", 4)]),
    ];
    let units = Analysis::read_incremental(&roots, &known, decode);
    assert_eq!(count(&units, "a/bad"), 0);
    assert_eq!(
        paths(&units),
        vec!["a/good1".to_string(), "a/good2".to_string(), "b/good3".to_string()]
    );
    // Four artifacts needed loading, one failed.
    assert_eq!(units.len(), 4 - 1);
}

#[test]
fn newer_artifact_loaded_once() {
    let mut known = KnownTimestamps::new();
    known.set("r/x".to_string(), Freshness::KnownAt(10));
    let roots = vec![Some(vec![file("r/x", 11)])];
    let units = Analysis::read_incremental(&roots, &known, decode);
    assert_eq!(count(&units, "r/x"), 1);
    assert_eq!(units[0].timestamp, 11);
}

#[test]
fn unchanged_artifact_skipped() {
    let mut known = KnownTimestamps::new();
    known.set("r/same".to_string(), Freshness::KnownAt(10));
    known.set("r/older".to_string(), Freshness::KnownAt(10));
    let roots = vec![Some(vec![file("r/same", 10), file("r/older", 9)])];
    let units = Analysis::read_incremental(&roots, &known, decode);
    assert!(units.is_empty());
}

#[test]
fn pinned_artifact_never_loaded() {
    let mut known = KnownTimestamps::new();
    known.set("r/p".to_string(), Freshness::Pinned);
    for t in [0u128, 1, 1_000_000, u128::MAX] {
        let roots = vec![Some(vec![file("r/p", t)])];
        let units = Analysis::read_incremental(&roots, &known, decode);
        assert_eq!(count(&units, "r/p"), 0);
    }
}

#[test]
fn unseen_artifact_loaded_once() {
    let known = KnownTimestamps::new();
    let roots = vec![Some(vec![file("r/new", 0)])];
    let units = Analysis::read_incremental(&roots, &known, decode);
    assert_eq!(count(&units, "r/new"), 1);
    assert_eq!(units[0].timestamp, 0);
}

#[test]
fn failed_listing_contributes_nothing() {
    let known = KnownTimestamps::new();
    let roots = vec![None, Some(vec![file("b/u", 5)]), None];
    let units = Analysis::read_incremental(&roots, &known, decode);
    assert_eq!(paths(&units), vec!["b/u".to_string()]);
}

#[test]
fn directories_are_ignored() {
    let known = KnownTimestamps::new();
    let roots = vec![Some(vec![dir("r/sub"), file("r/f", 1), dir("r/other")])];
    let units = Analysis::read_incremental(&roots, &known, decode);
    assert_eq!(paths(&units), vec!["r/f".to_string()]);
}

#[test]
fn same_path_in_two_roots_loaded_twice() {
    let known = KnownTimestamps::new();
    let roots = vec![Some(vec![file("s/x", 3)]), Some(vec![file("s/x", 3)])];
    let units = Analysis::read_incremental(&roots, &known, decode);
    assert_eq!(count(&units, "s/x"), 2);
}

#[test]
fn results_keep_listing_order() {
    let known = KnownTimestamps::new();
    let roots = vec![Some(vec![file("r/b", 1), file("r/a", 2)]), Some(vec![file("q/c", 3)])];
    let units = Analysis::read_incremental(&roots, &known, decode);
    let order: Vec<&str> = units.iter().map(|c| c.path.as_str()).collect();
    assert_eq!(order, vec!["r/b", "r/a", "q/c"]);
}

#[test]
fn empty_roots_yield_nothing() {
    let known = KnownTimestamps::new();
    let roots: Vec<Option<Vec<Listing>>> = vec![];
    assert!(Analysis::read_incremental(&roots, &known, decode).is_empty());
    let roots = vec![Some(vec![])];
    assert!(Analysis::read_incremental(&roots, &known, decode).is_empty());
}

#[test]
fn second_load_after_recording_is_empty() {
    let mut known = KnownTimestamps::new();
    known.set("r/old".to_string(), Freshness::KnownAt(1));
    known.set("r/pin".to_string(), Freshness::Pinned);
    let roots = vec![
        Some(vec![file("r/old", 5), file("r/new", 6), file("r/pin", 7)]),
        Some(vec![file("s/bad", 8)]),
    ];
    let first = Analysis::read_incremental(&roots, &known, decode);
    assert_eq!(paths(&first), vec!["r/new".to_string(), "r/old".to_string()]);
    known.record(&first);
    assert_eq!(known.get(&"r/old".to_string()), Freshness::KnownAt(5));
    assert_eq!(known.get(&"r/new".to_string()), Freshness::KnownAt(6));
    let second = Analysis::read_incremental(&roots, &known, decode);
    // Only the never-seen artifact whose decode failed is tried again.
    assert!(second.is_empty());
    let always = |_p: &String| Some(empty_analysis());
    let third = Analysis::read_incremental(&roots, &known, always);
    assert_eq!(paths(&third), vec!["s/bad".to_string()]);
}

#[test]
fn read_loads_everything() {
    let roots = vec![Some(vec![file("r/a", 1), file("r/b", 2)]), None];
    let units = Analysis::read(&roots, decode);
    assert_eq!(paths(&units), vec!["r/a".to_string(), "r/b".to_string()]);
}

#[test]
fn load_root_applies_policy() {
    let mut known = KnownTimestamps::new();
    known.set("r/a".to_string(), Freshness::KnownAt(3));
    let listing = vec![file("r/a", 3), file("r/b", 1), file("r/bad", 1)];
    let units = Analysis::load_root(&listing, &known, decode);
    assert_eq!(paths(&units), vec!["r/b".to_string()]);
}

#[test]
fn policy_decisions() {
    assert!(needs_load(Freshness::Unseen, 0));
    assert!(needs_load(Freshness::KnownAt(4), 5));
    assert!(!needs_load(Freshness::KnownAt(5), 5));
    assert!(!needs_load(Freshness::KnownAt(6), 5));
    assert!(!needs_load(Freshness::Pinned, u128::MAX));
}

#[test]
fn snapshot_get_and_set() {
    let mut known = KnownTimestamps::new();
    let p = "x".to_string();
    assert_eq!(known.get(&p), Freshness::Unseen);
    known.set(p.clone(), Freshness::KnownAt(2));
    assert_eq!(known.get(&p), Freshness::KnownAt(2));
    known.set(p.clone(), Freshness::Pinned);
    assert_eq!(known.get(&p), Freshness::Pinned);
    known.set(p.clone(), Freshness::Unseen);
    assert_eq!(known.get(&p), Freshness::Unseen);
    assert_eq!(known.get(&"y".to_string()), Freshness::Unseen);
}

#[test]
fn namespaces_of_kinds() {
    for k in [DefKind::Enum, DefKind::Tuple, DefKind::Struct, DefKind::Type, DefKind::Trait] {
        assert_eq!(k.name_space(), 't');
    }
    for k in [
        DefKind::Function,
        DefKind::Method,
        DefKind::Mod,
        DefKind::Local,
        DefKind::Static,
        DefKind::Const,
        DefKind::Field,
    ] {
        assert_eq!(k.name_space(), 'v');
    }
    assert_eq!(DefKind::Macro.name_space(), 'm');
    assert_eq!(DefKind::Import.try_name_space(), None);
    assert_eq!(DefKind::Struct.try_name_space(), Some('t'));
    assert_eq!(DefKind::Macro.try_name_space(), Some('m'));
}

#[test]
fn target_names() {
    assert_eq!(Target::Release.to_string(), "release");
    assert_eq!(Target::Debug.to_string(), "debug");
}

#[test]
fn crate_new_keeps_fields() {
    let c = Crate::new(empty_analysis(), 42, "p/q".to_string());
    assert_eq!(c.timestamp, 42);
    assert_eq!(c.path, "p/q");
    assert_eq!(c.analysis.kind, Format::Json);
}

#[test]
fn unparsable_bytes_yield_no_unit() {
    let mut contents: HashMap<String, &str> = HashMap::new();
    contents.insert("r/ok1".to_string(), "{\"kind\": \"Json\"}");
    contents.insert("r/broken".to_string(), "{not a document");
    contents.insert("s/ok2".to_string(), "[]");
    let parse = |p: &String| {
        let bytes = contents.get(p)?;
        Json::from_str(bytes).ok().map(|_| empty_analysis())
    };
    let known = KnownTimestamps::new();
    let roots = vec![
        Some(vec![file("r/ok1", 1), file("r/broken", 1)]),
        Some(vec![file("s/ok2", 1)]),
    ];
    let units = Analysis::read_incremental(&roots, &known, parse);
    assert_eq!(count(&units, "r/broken"), 0);
    assert_eq!(paths(&units), vec!["r/ok1".to_string(), "s/ok2".to_string()]);
}
