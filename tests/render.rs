use scoped_trace::capture::CaptureSet;
use scoped_trace::symbol::Symbol;
use scoped_trace::tree::CallTree;

fn tree_of(captures: Vec<Vec<usize>>) -> CallTree {
    let mut set = CaptureSet::new();
    for c in captures {
        set.push(c);
    }
    CallTree::from_captures(&set)
}

fn labels(rows: &[&[&str]]) -> Vec<Vec<String>> {
    rows.iter().map(|row| row.iter().map(|s| s.to_string()).collect()).collect()
}

#[test]
fn two_call_sites_of_one_function() {
    // closure (1) calls foo at two sites (2, 3); bar and baz are inlined into foo
    let tree = tree_of(vec![vec![2, 1], vec![3, 1]]);
    let names = labels(&[
        &["main::{{closure}} at example.rs:4:38"],
        &["foo at example.rs:9:5", "bar at example.rs:14:5"],
        &["foo at example.rs:10:5", "baz at example.rs:18:5"],
    ]);
    assert_eq!(
        tree.render(&names).join("\n"),
        "\
╼ main::{{closure}} at example.rs:4:38
  ├╼ foo at example.rs:9:5
  │  └╼ bar at example.rs:14:5
  └╼ foo at example.rs:10:5
     └╼ baz at example.rs:18:5"
    );
}

#[test]
fn unresolved_address_shows_raw() {
    let tree = tree_of(vec![vec![0x2a, 0x1f]]);
    let names = labels(&[&[], &["leaf"]]);
    assert_eq!(tree.render(&names), vec!["╼ 0x1f", "  └╼ leaf"]);
    assert_eq!(tree.render(&vec![]), vec!["╼ 0x1f", "  └╼ 0x2a"]);
}

#[test]
fn several_roots_print_in_turn() {
    let tree = tree_of(vec![vec![2, 1], vec![3, 4]]);
    let names = labels(&[&["a"], &["b"], &["c"], &["d"]]);
    assert_eq!(tree.render(&names), vec!["╼ a", "  └╼ b", "╼ c", "  └╼ d"]);
}

#[test]
fn symbol_label_full() {
    let s = Symbol {
        name: Some("inlining::foo".to_string()),
        file: Some("example.rs".to_string()),
        line: Some(9),
        column: Some(5),
    };
    assert_eq!(s.label(), "inlining::foo at example.rs:9:5");
}

#[test]
fn symbol_label_partial() {
    let s = Symbol { name: Some("f".to_string()), file: None, line: Some(3), column: None };
    assert_eq!(s.label(), "f");
    let s = Symbol { name: None, file: Some("a.rs".to_string()), line: None, column: None };
    assert_eq!(s.label(), "<unknown> at a.rs");
    let s = Symbol { name: Some("g".to_string()), file: Some("b.rs".to_string()), line: Some(120), column: None };
    assert_eq!(s.label(), "g at b.rs:120");
}
