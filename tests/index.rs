use boxviewer::{build_index, ScriptError, StateIndex};

fn entries(index: &StateIndex) -> Vec<(String, String)> {
    index
        .blocks()
        .iter()
        .map(|b| (b.name.clone(), b.body.clone()))
        .collect()
}

#[test]
fn two_blocks_literal() {
    let script = "beginState foo\nhit: abc\nendState\nbeginState bar\ndmg: 1\nendState";
    let index = build_index(script).unwrap();
    assert_eq!(
        entries(&index),
        vec![
            ("beginState foo".to_string(), "beginState foo\nhit: abc\n".to_string()),
            ("beginState bar".to_string(), "beginState bar\ndmg: 1\n".to_string()),
        ]
    );
    assert_eq!(index.get("beginState bar").unwrap(), "beginState bar\ndmg: 1\n");
    assert!(index.get("beginState baz").is_none());
}

#[test]
fn empty_script_gives_empty_index() {
    let index = build_index("").unwrap();
    assert_eq!(index.len(), 0);
}

#[test]
fn text_without_markers_gives_empty_index() {
    let index = build_index("just some text\nwith lines\n").unwrap();
    assert_eq!(index.len(), 0);
}

#[test]
fn begin_without_end_is_malformed() {
    let r = build_index("beginState lonely\nsprite: 'X'\n");
    assert_eq!(r.err(), Some(ScriptError::MalformedScript));
}

#[test]
fn begin_without_line_end_is_malformed() {
    let r = build_index("beginState a endState");
    assert_eq!(r.err(), Some(ScriptError::MalformedScript));
}

#[test]
fn second_block_without_line_end_is_malformed() {
    let r = build_index("beginState a\nendState beginState b endState");
    assert_eq!(r.err(), Some(ScriptError::MalformedScript));
}

#[test]
fn colliding_names_keep_second_body() {
    let script = "beginState same\nfirst\nendState\nbeginState same\nsecond\nendState\n";
    let index = build_index(script).unwrap();
    assert_eq!(
        entries(&index),
        vec![("beginState same".to_string(), "beginState same\nsecond\n".to_string())]
    );
}

#[test]
fn colliding_name_keeps_first_position() {
    let script = "beginState a\n1\nendState\nbeginState b\n2\nendState\nbeginState a\n3\nendState\n";
    let index = build_index(script).unwrap();
    assert_eq!(
        entries(&index),
        vec![
            ("beginState a".to_string(), "beginState a\n3\n".to_string()),
            ("beginState b".to_string(), "beginState b\n2\n".to_string()),
        ]
    );
}

#[test]
fn bodies_span_marker_to_marker() {
    let script = "header\nbeginState one\nx\nendState\nmiddle\nbeginState two\ny\nz\nendState\ntrailer";
    let index = build_index(script).unwrap();
    assert!(index.len() <= 2);
    for b in index.blocks() {
        let start = script.find(b.body.as_str()).unwrap();
        assert!(script[start..].starts_with("beginState"));
        assert!(script[start + b.body.len()..].starts_with("endState"));
    }
    assert_eq!(index.len(), 2);
}

#[test]
fn building_twice_gives_same_index() {
    let script = "beginState foo\nhit: abc\nendState\nbeginState bar\ndmg: 1\nendState";
    let a = build_index(script).unwrap();
    let b = build_index(script).unwrap();
    assert_eq!(entries(&a), entries(&b));
}

#[test]
fn pairing_is_by_rank_not_nesting() {
    let script = "beginState outer\nbeginState inner\nendState\nendState\n";
    let index = build_index(script).unwrap();
    assert_eq!(
        entries(&index),
        vec![
            ("beginState outer".to_string(), "beginState outer\nbeginState inner\n".to_string()),
            ("beginState inner".to_string(), "beginState inner\nendState\n".to_string()),
        ]
    );
}

#[test]
fn end_before_begin_gives_empty_body() {
    let script = "endState\nbeginState late\n";
    let index = build_index(script).unwrap();
    assert_eq!(entries(&index), vec![("beginState late".to_string(), String::new())]);
}

#[test]
fn offsets_count_characters() {
    let script = "é\nbeginState ß\nλ\nendState";
    let index = build_index(script).unwrap();
    assert_eq!(
        entries(&index),
        vec![("beginState ß".to_string(), "beginState ß\nλ\n".to_string())]
    );
}

#[test]
fn overlapping_end_markers_count_once() {
    let script = "beginState a\nendStatendState";
    let index = build_index(script).unwrap();
    assert_eq!(entries(&index), vec![("beginState a".to_string(), "beginState a\n".to_string())]);
}

#[test]
fn extra_end_markers_are_ignored() {
    let script = "beginState a\nq\nendState\nendState\n";
    let index = build_index(script).unwrap();
    assert_eq!(entries(&index), vec![("beginState a".to_string(), "beginState a\nq\n".to_string())]);
}

#[test]
fn one_entry_per_distinct_name() {
    let script = "beginState a\n1\nendState\nbeginState b\n2\nendState\nbeginState a\n3\nendState\nbeginState c\n4\nendState\nbeginState b\n5\nendState\n";
    let index = build_index(script).unwrap();
    assert_eq!(index.len(), 3);
    assert_eq!(index.get("beginState a").unwrap(), "beginState a\n3\n");
    assert_eq!(index.get("beginState b").unwrap(), "beginState b\n5\n");
    assert_eq!(index.get("beginState c").unwrap(), "beginState c\n4\n");
}
