use tlparse_vllm::diff::{render_diff_table, DiffHunk, DiffLine, LineKind};
use tlparse_vllm::parsers::VllmPostGradPassDiffParser;

const OPEN: &str = "<div class=\"diff-wrapper\"><table class=\"diff-table\">\n<colgroup><col class=\"line-num-col\"><col class=\"code-col\"><col class=\"line-num-col\"><col class=\"code-col\"></colgroup>\n";
const CLOSE: &str = "</table></div>\n";
const NO_CHANGES: &str = "<div class=\"no-changes\">(no changes)</div>\n";

fn line(tag: LineKind, value: &str, old: Option<usize>, new: Option<usize>) -> DiffLine {
    DiffLine { tag, value: value.to_string(), old_index: old, new_index: new }
}

#[test]
fn identical_texts_have_no_changes() {
    assert_eq!(VllmPostGradPassDiffParser::generate_diff_html("a\nb\n", "a\nb\n"), NO_CHANGES);
    assert_eq!(VllmPostGradPassDiffParser::generate_diff_html("", ""), NO_CHANGES);
}

#[test]
fn replaced_line_is_shown_beside_its_replacement() {
    let html = VllmPostGradPassDiffParser::generate_diff_html("a\nb\n", "a\nc\n");
    let expected = format!(
        "{OPEN}<tr class=\"diff-hunk\"><td colspan=\"4\">@@ @@ -1,2 +1,2 @@ @@</td></tr>\n\
<tr><td class=\"line-num\">1</td><td class=\"code-cell\">a</td><td class=\"line-num right-num\">1</td><td class=\"code-cell\">a</td></tr>\n\
<tr><td class=\"line-num\">2</td><td class=\"code-cell diff-del\">b</td><td class=\"line-num right-num\">2</td><td class=\"code-cell diff-add\">c</td></tr>\n{CLOSE}"
    );
    assert_eq!(html, expected);
}

#[test]
fn standalone_insertion_has_a_blank_left_side() {
    let html = VllmPostGradPassDiffParser::generate_diff_html("a\n", "a\nb\n");
    let expected = format!(
        "{OPEN}<tr class=\"diff-hunk\"><td colspan=\"4\">@@ @@ -1 +1,2 @@ @@</td></tr>\n\
<tr><td class=\"line-num\">1</td><td class=\"code-cell\">a</td><td class=\"line-num right-num\">1</td><td class=\"code-cell\">a</td></tr>\n\
<tr><td class=\"line-num\"></td><td class=\"code-cell\"></td><td class=\"line-num right-num\">2</td><td class=\"code-cell diff-add\">b</td></tr>\n{CLOSE}"
    );
    assert_eq!(html, expected);
}

#[test]
fn cell_text_is_escaped() {
    let html = VllmPostGradPassDiffParser::generate_diff_html("x<y\n", "x>y & z\n");
    assert!(html.contains("<td class=\"code-cell diff-del\">x&lt;y</td>"));
    assert!(html.contains("<td class=\"code-cell diff-add\">x&gt;y &amp; z</td>"));
}

#[test]
fn empty_hunk_list_is_no_changes() {
    assert_eq!(render_diff_table(&Vec::new()), NO_CHANGES);
}

#[test]
fn longer_deletion_run_leaves_blank_right_cells() {
    let hunk = DiffHunk {
        header: "@@ -1,3 +1,1 @@".to_string(),
        lines: vec![
            line(LineKind::Delete, "b\n", Some(0), None),
            line(LineKind::Delete, "c\n\n", Some(1), None),
            line(LineKind::Insert, "d", None, Some(0)),
            line(LineKind::Equal, "e\n", Some(2), Some(1)),
        ],
    };
    let html = render_diff_table(&vec![hunk]);
    let expected = format!(
        "{OPEN}<tr class=\"diff-hunk\"><td colspan=\"4\">@@ @@ -1,3 +1,1 @@ @@</td></tr>\n\
<tr><td class=\"line-num\">1</td><td class=\"code-cell diff-del\">b</td><td class=\"line-num right-num\">1</td><td class=\"code-cell diff-add\">d</td></tr>\n\
<tr><td class=\"line-num\">2</td><td class=\"code-cell diff-del\">c</td><td class=\"line-num right-num\"></td><td class=\"code-cell\"></td></tr>\n\
<tr><td class=\"line-num\">3</td><td class=\"code-cell\">e</td><td class=\"line-num right-num\">2</td><td class=\"code-cell\">e</td></tr>\n{CLOSE}"
    );
    assert_eq!(html, expected);
}

#[test]
fn longer_insertion_run_leaves_blank_left_cells() {
    let hunk = DiffHunk {
        header: "h".to_string(),
        lines: vec![
            line(LineKind::Delete, "x\n", Some(4), None),
            line(LineKind::Insert, "y\n", None, Some(4)),
            line(LineKind::Insert, "z\n", None, Some(5)),
        ],
    };
    let html = render_diff_table(&vec![hunk]);
    let expected = format!(
        "{OPEN}<tr class=\"diff-hunk\"><td colspan=\"4\">@@ h @@</td></tr>\n\
<tr><td class=\"line-num\">5</td><td class=\"code-cell diff-del\">x</td><td class=\"line-num right-num\">5</td><td class=\"code-cell diff-add\">y</td></tr>\n\
<tr><td class=\"line-num\"></td><td class=\"code-cell\"></td><td class=\"line-num right-num\">6</td><td class=\"code-cell diff-add\">z</td></tr>\n{CLOSE}"
    );
    assert_eq!(html, expected);
}

#[test]
fn every_hunk_gets_a_separator_row() {
    let h1 = DiffHunk { header: "one".into(), lines: vec![line(LineKind::Insert, "p\n", None, Some(0))] };
    let h2 = DiffHunk { header: "<two>".into(), lines: vec![line(LineKind::Equal, "q", Some(9), Some(9))] };
    let html = render_diff_table(&vec![h1, h2]);
    let expected = format!(
        "{OPEN}<tr class=\"diff-hunk\"><td colspan=\"4\">@@ one @@</td></tr>\n\
<tr><td class=\"line-num\"></td><td class=\"code-cell\"></td><td class=\"line-num right-num\">1</td><td class=\"code-cell diff-add\">p</td></tr>\n\
<tr class=\"diff-hunk\"><td colspan=\"4\">@@ &lt;two&gt; @@</td></tr>\n\
<tr><td class=\"line-num\">10</td><td class=\"code-cell\">q</td><td class=\"line-num right-num\">10</td><td class=\"code-cell\">q</td></tr>\n{CLOSE}"
    );
    assert_eq!(html, expected);
}

#[test]
fn distant_changes_make_separate_hunks() {
    let before: String = (0..20).map(|i| format!("l{i}\n")).collect();
    let after = before.replace("l1\n", "L1\n").replace("l18\n", "L18\n");
    let html = VllmPostGradPassDiffParser::generate_diff_html(&before, &after);
    assert_eq!(html.matches("class=\"diff-hunk\"").count(), 2);
}
