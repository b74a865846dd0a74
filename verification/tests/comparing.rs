use cms_for_rust::compare::{compare_debug, value_to_be, DebugCompareError, Mismatch, MismatchKind};
use cms_for_rust::debug_output::{insert_entry, DebugOutput};
use cms_for_rust::parse::try_str_to_debug;

fn mismatch_of(expect: &str, to_be: &str) -> Mismatch {
    match compare_debug(expect, to_be) {
        Err(DebugCompareError::Mismatch(m)) => m,
        other => panic!("no mismatch: {:?}", other),
    }
}

fn other(s: &str) -> DebugOutput {
    DebugOutput::Other(s.to_string())
}

#[test]
fn same_text_compares_equal() {
    for s in [
        "S1 { a: 1, b: [1, 2, (3, \"x\")] }",
        "{\"k\": Some(1), \"j\": None}",
        "[]",
        "\"a \\\" b\"",
        "Wrap(Inner { v: [] })",
    ] {
        assert_eq!(compare_debug(s, s), Ok(()));
    }
}

#[test]
fn map_order_does_not_matter() {
    assert_eq!(compare_debug("S1 { a: 1, b: 2 }", "S1 { b: 2, a: 1 }"), Ok(()));
    assert_eq!(compare_debug("{a: [1, 2], b: {c: 3, d: 4}}", "{b: {d: 4, c: 3}, a: [1, 2]}"), Ok(()));
}

#[test]
fn missing_key_is_reported() {
    let m = mismatch_of("S1 { a: 1, b: 2 }", "S1 { a: 1 }");
    assert_eq!(m.path, "#");
    assert_eq!(m.kind, MismatchKind::MissingKeys(vec!["b".to_string()]));
    assert_eq!(
        m.message(),
        "# has missing key(s) \n missing: (b)\nexpected: {\"a\": 1, \"b\": 2}\n   found: {\"a\": 1}"
    );
}

#[test]
fn extra_key_is_reported() {
    let m = mismatch_of("S1 { a: 1 }", "S1 { a: 1, c: 3 }");
    assert_eq!(m.kind, MismatchKind::ExtraKeys(vec!["c".to_string()]));
    assert_eq!(
        m.message(),
        "# some keys were not expected \n   extra: [\"c\"]\nexpected: {\"a\": 1}\n   found: {\"a\": 1, \"c\": 3}"
    );
}

#[test]
fn length_is_reported() {
    let m = mismatch_of("[1, 2]", "[1, 2, 3]");
    assert_eq!(m.kind, MismatchKind::Length(2, 3));
    assert_eq!(m.expected, "[1, 2]");
    assert_eq!(m.found, "[1, 2, 3]");
}

#[test]
fn name_is_reported() {
    let m = mismatch_of("A(1)", "B(1)");
    assert_eq!(m.kind, MismatchKind::Name("A".to_string(), "B".to_string()));
    assert_eq!(
        m.message(),
        "# type failure\n    type: expected \"A\" found \"B\"\nexpected: 1\n   found: 1"
    );
}

#[test]
fn paths_follow_keys_and_indexes() {
    let m = mismatch_of("S { a: { b: [1, 2] } }", "S { a: { b: [1, 5] } }");
    assert_eq!(m.path, "#.a.b[1]");
    assert_eq!(m.kind, MismatchKind::Differs);
    assert_eq!(m.message(), "#.a.b[1] failed\nexpected: \"2\"\n   found: \"5\"");
}

#[test]
fn one_item_lists_compare_by_item() {
    let m = mismatch_of("(1)", "(2)");
    assert_eq!(m.path, "#");
}

#[test]
fn different_shapes_differ() {
    let m = mismatch_of("\"1\"", "1");
    assert_eq!(m.kind, MismatchKind::Differs);
    assert_eq!(m.expected, "\"1\"");
    assert_eq!(m.found, "1");
    let m = mismatch_of("{a: 1}", "[1, 2]");
    assert_eq!(m.message(), "# failed\nexpected: {\"a\": 1, }\n   found: [1, 2, ]");
}

#[test]
fn unreadable_text_is_reported() {
    assert_eq!(try_str_to_debug("\"ab\\"), None);
    assert_eq!(compare_debug("\"ab\\", "1"), Err(DebugCompareError::Unreadable));
    assert!(try_str_to_debug("\"ab\\\\\"").is_some());
}

#[test]
fn value_to_be_on_built_values() {
    let a = DebugOutput::Entries(vec![("x".to_string(), other("1"))]);
    let b = DebugOutput::Entries(vec![("x".to_string(), other("2"))]);
    let r = value_to_be(&a, &b, "root".to_string());
    assert_eq!(
        r,
        Err(Mismatch {
            path: "root.x".to_string(),
            kind: MismatchKind::Differs,
            expected: "\"1\"".to_string(),
            found: "\"2\"".to_string(),
        })
    );
    assert_eq!(value_to_be(&a, &a, "root".to_string()), Ok(()));
}

#[test]
fn debug_string_renders_compactly() {
    assert_eq!(DebugOutput::Entries(vec![]).debug_string(), "{}");
    assert_eq!(DebugOutput::Entries(vec![("".to_string(), other("1"))]).debug_string(), "{}");
    assert_eq!(
        DebugOutput::Entries(vec![("a".to_string(), other("1")), ("b".to_string(), other("2"))])
            .debug_string(),
        "{\"a\": 1, \"b\": 2, }"
    );
    assert_eq!(DebugOutput::Vec(vec![other("7")]).debug_string(), "7");
    assert_eq!(DebugOutput::Vec(vec![other("1"), other("2")]).debug_string(), "[1, 2, ]");
    assert_eq!(DebugOutput::Vec(vec![]).debug_string(), "[]");
    assert_eq!(
        DebugOutput::Named("N".to_string(), Box::new(DebugOutput::String("q\"t".to_string())))
            .debug_string(),
        "\"q\\\"t\""
    );
}

#[test]
fn insert_entry_overwrites_or_appends() {
    let mut e = vec![("a".to_string(), other("1"))];
    insert_entry(&mut e, "b".to_string(), other("2"));
    insert_entry(&mut e, "a".to_string(), other("3"));
    assert_eq!(e, vec![("a".to_string(), other("3")), ("b".to_string(), other("2"))]);
}

#[test]
fn repeated_keys_keep_the_last_value() {
    assert_eq!(
        try_str_to_debug("{a: 1, a: 2}"),
        Some(DebugOutput::Entries(vec![("a".to_string(), other("2"))]))
    );
}

#[test]
fn matching_goes_both_ways() {
    let pairs = [
        ("S1 { a: 1, b: [2, 3] }", "S1 { b: [2, 3], a: 1 }"),
        ("(1)", "(1)"),
        ("{x: {y: \"z\"}, w: N(4)}", "{w: N(4), x: {y: \"z\"}}"),
    ];
    for (a, b) in pairs {
        assert_eq!(compare_debug(a, b), Ok(()));
        assert_eq!(compare_debug(b, a), Ok(()));
    }
    assert!(compare_debug("{a: 1}", "{a: 1, b: 2}").is_err());
    assert!(compare_debug("{a: 1, b: 2}", "{a: 1}").is_err());
}

#[test]
fn matching_chains() {
    let a = "{p: [1, {q: 2, r: 3}], s: T(\"u\")}";
    let b = "{s: T(\"u\"), p: [1, {r: 3, q: 2}]}";
    let c = "{p: [1, {q: 2, r: 3}], s: T(\"u\")}";
    assert_eq!(compare_debug(a, b), Ok(()));
    assert_eq!(compare_debug(b, c), Ok(()));
    assert_eq!(compare_debug(a, c), Ok(()));
}

#[test]
fn equality_ignores_map_order() {
    let a = DebugOutput::Entries(vec![("x".to_string(), other("1")), ("y".to_string(), other("2"))]);
    let b = DebugOutput::Entries(vec![("y".to_string(), other("2")), ("x".to_string(), other("1"))]);
    let c = DebugOutput::Entries(vec![("y".to_string(), other("3")), ("x".to_string(), other("1"))]);
    assert_eq!(a, b);
    assert_ne!(a, c);
    assert_ne!(DebugOutput::Vec(vec![other("1"), other("2")]), DebugOutput::Vec(vec![other("2"), other("1")]));
}

#[test]
fn brackets_read_alike() {
    for c in ["1, {a: 2}, \"x\"", "", " a b ", "{q: \"r\"", "\"unclosed"] {
        assert_eq!(
            try_str_to_debug(&format!("({})", c)),
            try_str_to_debug(&format!("[{}]", c))
        );
    }
}

#[test]
fn verdict_does_not_depend_on_the_path() {
    let a = try_str_to_debug("S { a: [1, {b: 2}] }").unwrap();
    let b = try_str_to_debug("S { a: [1, {b: 3}] }").unwrap();
    for p in ["#", "", "root.x"] {
        assert!(value_to_be(&a, &a, p.to_string()).is_ok());
        let m = value_to_be(&a, &b, p.to_string()).unwrap_err();
        assert_eq!(m.path, format!("{}.a[1].b", p));
    }
}
