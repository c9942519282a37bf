use xi_view::cache::{trim_new_line, LineCache};
use xi_view::protocol::{Line, Operation, StyleDef, Update};

fn line(text: &str) -> Line {
    Line { text: String::from(text), cursor: Vec::new(), styles: Vec::new() }
}

fn texts(cache: &LineCache) -> Vec<String> {
    cache.lines.iter().map(|l| l.text.clone()).collect()
}

#[test]
fn new_cache_is_empty() {
    let cache = LineCache::new();
    assert!(cache.is_empty());
    assert_eq!(cache.invalid_before, 0);
    assert_eq!(cache.invalid_after, 0);
}

#[test]
fn copy_full_buffer_is_identity() {
    let mut cache = LineCache::new();
    cache.update(&Update {
        operations: vec![Operation::Insert(vec![line("a"), line("b"), line("c")])],
    });
    cache.update(&Update { operations: vec![Operation::Copy(3)] });
    assert_eq!(texts(&cache), vec!["a", "b", "c"]);
    assert_eq!(cache.invalid_before, 0);
    assert_eq!(cache.invalid_after, 0);
}

#[test]
fn conservation_of_produced_lines() {
    let mut cache = LineCache::new();
    cache.update(&Update {
        operations: vec![Operation::Insert(vec![
            line("a"),
            line("b"),
            line("c"),
            line("d"),
            line("e"),
        ])],
    });
    // Copy two, skip one, insert two, merge one: five lines come out.
    cache.update(&Update {
        operations: vec![
            Operation::Copy(2),
            Operation::Skip(1),
            Operation::Insert(vec![line("x"), line("y")]),
            Operation::Update(1, vec![line("ignored")]),
            Operation::Invalidate(4),
        ],
    });
    assert_eq!(texts(&cache), vec!["a", "b", "x", "y", "d"]);
    assert_eq!(cache.invalid_before, 0);
    assert_eq!(cache.invalid_after, 4);
}

#[test]
fn copy_bounded_by_availability() {
    let mut cache = LineCache::new();
    cache.update(&Update { operations: vec![Operation::Insert(vec![line("a"), line("b")])] });
    cache.update(&Update { operations: vec![Operation::Copy(10)] });
    assert_eq!(texts(&cache), vec!["a", "b"]);
}

#[test]
fn skip_discards_lines() {
    let mut cache = LineCache::new();
    cache.update(&Update { operations: vec![Operation::Insert(vec![line("a"), line("b")])] });
    cache.update(&Update { operations: vec![Operation::Skip(1), Operation::Copy(1)] });
    assert_eq!(texts(&cache), vec!["b"]);
}

#[test]
fn invalidate_tie_break() {
    let mut cache = LineCache::new();
    cache.update(&Update { operations: vec![Operation::Insert(vec![line("old")])] });
    cache.update(&Update {
        operations: vec![
            Operation::Invalidate(3),
            Operation::Insert(vec![line("l1")]),
            Operation::Invalidate(2),
        ],
    });
    assert_eq!(cache.invalid_before, 3);
    assert_eq!(texts(&cache), vec!["l1"]);
    assert_eq!(cache.invalid_after, 2);
}

#[test]
fn invalidate_before_any_content_sets_leading() {
    let mut cache = LineCache::new();
    cache.update(&Update { operations: vec![Operation::Invalidate(5)] });
    assert_eq!(cache.invalid_before, 5);
    assert_eq!(cache.invalid_after, 0);
    assert!(cache.is_empty());
}

#[test]
fn counters_reset_on_every_update() {
    let mut cache = LineCache::new();
    cache.update(&Update {
        operations: vec![Operation::Invalidate(3), Operation::Insert(vec![line("a")])],
    });
    assert_eq!(cache.invalid_before, 3);
    cache.update(&Update { operations: vec![Operation::Copy(1)] });
    assert_eq!(cache.invalid_before, 0);
    assert_eq!(cache.invalid_after, 0);
}

#[test]
fn update_preserves_text_replaces_metadata() {
    let mut cache = LineCache::new();
    cache.update(&Update { operations: vec![Operation::Insert(vec![line("hello")])] });
    let replacement = Line {
        text: String::from("ignored"),
        cursor: vec![1, 2],
        styles: vec![StyleDef { offset: 0, length: 5, style_id: 7 }],
    };
    cache.update(&Update { operations: vec![Operation::Update(1, vec![replacement])] });
    assert_eq!(cache.lines.len(), 1);
    assert_eq!(cache.lines[0].text, "hello");
    assert_eq!(cache.lines[0].cursor, vec![1, 2]);
    assert_eq!(cache.lines[0].styles, vec![StyleDef { offset: 0, length: 5, style_id: 7 }]);
}

#[test]
fn update_pairing_stops_at_shorter_side() {
    let mut cache = LineCache::new();
    cache.update(&Update {
        operations: vec![Operation::Insert(vec![line("a"), line("b"), line("c")])],
    });
    // Three old lines are consumed but only one replacement is supplied.
    cache.update(&Update { operations: vec![Operation::Update(3, vec![line("x")])] });
    assert_eq!(texts(&cache), vec!["a"]);
}

#[test]
fn insert_trims_exactly_one_newline() {
    let mut cache = LineCache::new();
    cache.update(&Update {
        operations: vec![Operation::Insert(vec![line("foo\n"), line("foo\n\n"), line("bar")])],
    });
    assert_eq!(texts(&cache), vec!["foo", "foo\n", "bar"]);
}

#[test]
fn trim_new_line_removes_one_terminator() {
    let mut text = String::from("foo\n");
    trim_new_line(&mut text);
    assert_eq!(text, "foo");
}

#[test]
fn trim_new_line_leaves_other_text_alone() {
    let mut text = String::from("foo");
    trim_new_line(&mut text);
    assert_eq!(text, "foo");
    let mut empty = String::new();
    trim_new_line(&mut empty);
    assert_eq!(empty, "");
    let mut double = String::from("foo\n\n");
    trim_new_line(&mut double);
    assert_eq!(double, "foo\n");
}

#[test]
fn cloned_line_matches_original() {
    let original = Line {
        text: String::from("text"),
        cursor: vec![3],
        styles: vec![StyleDef { offset: -1, length: 2, style_id: 9 }],
    };
    let copy = original.clone();
    assert_eq!(copy.text, original.text);
    assert_eq!(copy.cursor, original.cursor);
    assert_eq!(copy.styles, original.styles);
}
