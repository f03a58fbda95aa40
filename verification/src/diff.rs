//! The side-by-side HTML table of a line diff between two graph dumps.
//!
//! The line diff itself comes from `similar`; everything from its hunks to
//! the HTML text is computed here and proved against `diff_table`.

use vstd::prelude::*;

use crate::text::{chars_of, decimal, push_char, push_decimal, push_str};

verus! {

/// Which side of the diff a line belongs to.
#[derive(Clone, Copy, Debug, PartialEq, Eq, Structural)]
pub enum LineKind {
    Equal,
    Delete,
    Insert,
}

/// One line of a hunk: its tag, its text (with its line terminator) and its
/// zero-based position in the old and in the new text.
#[derive(Clone, Debug)]
pub struct DiffLine {
    pub tag: LineKind,
    pub value: String,
    pub old_index: Option<usize>,
    pub new_index: Option<usize>,
}

/// One unified-diff hunk: its `@@ -a,b +c,d @@` header and its lines.
#[derive(Clone, Debug)]
pub struct DiffHunk {
    pub header: String,
    pub lines: Vec<DiffLine>,
}

/// The mathematical value of a [`DiffLine`].
pub struct DiffLineView {
    pub tag: LineKind,
    pub value: Seq<char>,
    pub old_index: Option<usize>,
    pub new_index: Option<usize>,
}

/// The mathematical value of a [`DiffHunk`].
pub struct DiffHunkView {
    pub header: Seq<char>,
    pub lines: Seq<DiffLineView>,
}

impl View for DiffLine {
    type V = DiffLineView;

    open spec fn view(&self) -> DiffLineView {
        DiffLineView {
            tag: self.tag,
            value: self.value@,
            old_index: self.old_index,
            new_index: self.new_index,
        }
    }
}

impl View for DiffHunk {
    type V = DiffHunkView;

    open spec fn view(&self) -> DiffHunkView {
        DiffHunkView { header: self.header@, lines: lines_view(self.lines@) }
    }
}

pub open spec fn lines_view(ls: Seq<DiffLine>) -> Seq<DiffLineView> {
    ls.map_values(|l: DiffLine| l@)
}

pub open spec fn hunks_view(hs: Seq<DiffHunk>) -> Seq<DiffHunkView> {
    hs.map_values(|h: DiffHunk| h@)
}

/// HTML escaping of one character as `html_escape::encode_text` does it.
pub open spec fn escape_char(c: char) -> Seq<char> {
    if c == '&' {
        "&amp;"@
    } else if c == '<' {
        "&lt;"@
    } else if c == '>' {
        "&gt;"@
    } else {
        seq![c]
    }
}

/// HTML escaping of a text: `&`, `<` and `>` become entities.
pub open spec fn escape_text(s: Seq<char>) -> Seq<char>
    decreases s.len(),
{
    if s.len() == 0 {
        seq![]
    } else {
        escape_text(s.drop_last()) + escape_char(s.last())
    }
}

/// `s` without its trailing newline characters.
pub open spec fn trim_trailing_newlines(s: Seq<char>) -> Seq<char>
    decreases s.len(),
{
    if s.len() > 0 && s.last() == '\n' {
        trim_trailing_newlines(s.drop_last())
    } else {
        s
    }
}

/// The one-based line number shown for a zero-based index, empty when absent.
pub open spec fn line_number(idx: Option<usize>) -> Seq<char> {
    match idx {
        Some(n) => decimal((n + 1) as nat),
        None => seq![],
    }
}

/// The escaped text of a line, without its line terminator.
pub open spec fn cell_text(l: DiffLineView) -> Seq<char> {
    escape_text(trim_trailing_newlines(l.value))
}

/// An unchanged line, shown on both sides.
pub open spec fn equal_row(l: DiffLineView) -> Seq<char> {
    "<tr><td class=\"line-num\">"@ + line_number(l.old_index) + "</td><td class=\"code-cell\">"@
        + cell_text(l) + "</td><td class=\"line-num right-num\">"@ + line_number(l.new_index)
        + "</td><td class=\"code-cell\">"@ + cell_text(l) + "</td></tr>\n"@
}

/// An inserted line that follows no deletion: blank left side.
pub open spec fn insert_row(l: DiffLineView) -> Seq<char> {
    "<tr><td class=\"line-num\"></td><td class=\"code-cell\"></td><td class=\"line-num right-num\">"@
        + line_number(l.new_index) + "</td><td class=\"code-cell diff-add\">"@ + cell_text(l)
        + "</td></tr>\n"@
}

/// Row `j` of a replaced block: the `j`-th deletion beside the `j`-th
/// insertion, a blank cell on the side that has run out.
pub open spec fn pair_row(dels: Seq<DiffLineView>, ins: Seq<DiffLineView>, j: int) -> Seq<char> {
    let left_class = if j < dels.len() { " diff-del"@ } else { seq![] };
    let left_num = if j < dels.len() { line_number(dels[j].old_index) } else { seq![] };
    let left_text = if j < dels.len() { cell_text(dels[j]) } else { seq![] };
    let right_class = if j < ins.len() { " diff-add"@ } else { seq![] };
    let right_num = if j < ins.len() { line_number(ins[j].new_index) } else { seq![] };
    let right_text = if j < ins.len() { cell_text(ins[j]) } else { seq![] };
    "<tr><td class=\"line-num\">"@ + left_num + "</td><td class=\"code-cell"@ + left_class + "\">"@
        + left_text + "</td><td class=\"line-num right-num\">"@ + right_num
        + "</td><td class=\"code-cell"@ + right_class + "\">"@ + right_text + "</td></tr>\n"@
}

/// The first `count` rows of a replaced block.
pub open spec fn paired_rows(dels: Seq<DiffLineView>, ins: Seq<DiffLineView>, count: nat) -> Seq<
    char,
>
    decreases count,
{
    if count == 0 {
        seq![]
    } else {
        paired_rows(dels, ins, (count - 1) as nat) + pair_row(dels, ins, count - 1)
    }
}

/// How many lines from position `i` on carry `tag`, without interruption.
pub open spec fn run_len(ls: Seq<DiffLineView>, i: int, tag: LineKind) -> nat
    decreases ls.len() - i,
{
    if 0 <= i < ls.len() && ls[i].tag == tag {
        1 + run_len(ls, i + 1, tag)
    } else {
        0
    }
}

pub proof fn lemma_run_len_bound(ls: Seq<DiffLineView>, i: int, tag: LineKind)
    requires
        0 <= i <= ls.len(),
    ensures
        i + run_len(ls, i, tag) <= ls.len(),
    decreases ls.len() - i,
{
    if i < ls.len() && ls[i].tag == tag {
        lemma_run_len_bound(ls, i + 1, tag);
    }
}

pub open spec fn max_nat(a: nat, b: nat) -> nat {
    if a > b {
        a
    } else {
        b
    }
}

/// The rows of the lines of a hunk from position `i` on: an unchanged line
/// gives one row, a standalone insertion one row, and a run of deletions
/// together with the run of insertions right after it gives as many rows as
/// the longer of the two runs.
pub open spec fn render_from(ls: Seq<DiffLineView>, i: int) -> Seq<char>
    decreases ls.len() - i,
{
    if i < 0 || i >= ls.len() {
        seq![]
    } else if ls[i].tag == LineKind::Equal {
        equal_row(ls[i]) + render_from(ls, i + 1)
    } else if ls[i].tag == LineKind::Insert {
        insert_row(ls[i]) + render_from(ls, i + 1)
    } else {
        let d = run_len(ls, i, LineKind::Delete);
        let k = run_len(ls, i + d, LineKind::Insert);
        proof {
            lemma_run_len_bound(ls, i, LineKind::Delete);
            lemma_run_len_bound(ls, i + d, LineKind::Insert);
        }
        paired_rows(ls.subrange(i, i + d), ls.subrange(i + d, i + d + k), max_nat(d, k))
            + render_from(ls, i + d + k)
    }
}

/// The separator row that opens a hunk.
pub open spec fn hunk_row(h: DiffHunkView) -> Seq<char> {
    "<tr class=\"diff-hunk\"><td colspan=\"4\">@@ "@ + escape_text(h.header) + " @@</td></tr>\n"@
}

/// All hunks, each as its separator row followed by the rows of its lines.
pub open spec fn hunks_body(hs: Seq<DiffHunkView>) -> Seq<char>
    decreases hs.len(),
{
    if hs.len() == 0 {
        seq![]
    } else {
        hunks_body(hs.drop_last()) + hunk_row(hs.last()) + render_from(hs.last().lines, 0)
    }
}

/// The HTML of a diff: a four-column table of all hunks, or a short note
/// when there is no hunk at all.
pub open spec fn diff_table(hs: Seq<DiffHunkView>) -> Seq<char> {
    if hs.len() == 0 {
        "<div class=\"no-changes\">(no changes)</div>\n"@
    } else {
        "<div class=\"diff-wrapper\"><table class=\"diff-table\">\n<colgroup><col class=\"line-num-col\"><col class=\"code-col\"><col class=\"line-num-col\"><col class=\"code-col\"></colgroup>\n"@
            + hunks_body(hs) + "</table></div>\n"@
    }
}

/// The hunks of the line diff between two texts with three lines of context,
/// as `similar` computes them. Defined by the outside crate.
pub uninterp spec fn line_diff(before: Seq<char>, after: Seq<char>) -> Seq<DiffHunkView>;

/// `similar::TextDiff::from_lines(before, after).unified_diff().context_radius(3).iter_hunks()`,
/// each hunk converted to a [`DiffHunk`] (its header text and its changes).
/// The contract names the result `line_diff` and states one fact the source
/// shows: equal texts give no hunk (the Myers diff emits a single equal
/// range, and `group_diff_ops` drops a group made of one equal range), and
/// different texts give at least one (their line sequences differ, so the
/// diff holds a change, and `group_diff_ops` keeps every group that holds one).
#[verifier::external_body]
pub(crate) fn unified_hunks(before: &str, after: &str) -> (hunks: Vec<DiffHunk>)
    ensures
        hunks_view(hunks@) == line_diff(before@, after@),
        before@ == after@ ==> hunks@.len() == 0,
        before@ != after@ ==> hunks@.len() > 0,
{
    let diff = similar::TextDiff::from_lines(before, after);
    let mut hunks = Vec::new();
    for hunk in diff.unified_diff().context_radius(3).iter_hunks() {
        let lines = hunk.iter_changes().map(|c| DiffLine {
            tag: tag_of(c.tag()), value: c.value().to_string(),
            old_index: c.old_index(), new_index: c.new_index() }).collect();
        hunks.push(DiffHunk { header: hunk.header().to_string(), lines });
    }
    hunks
}

/// `similar::ChangeTag`, carried opaquely into `tag_of`.
#[verifier::external_type_specification]
#[verifier::external_body]
pub struct ExSimilarChangeTag(similar::ChangeTag);

/// Converts `similar`'s change tag into the tag of this crate, variant for variant.
#[verifier::external_body]
fn tag_of(t: similar::ChangeTag) -> LineKind {
    match t {
        similar::ChangeTag::Equal => LineKind::Equal,
        similar::ChangeTag::Delete => LineKind::Delete,
        similar::ChangeTag::Insert => LineKind::Insert,
    }
}

/// `html_escape::encode_text`: escapes `&`, `<` and `>` and keeps every
/// other character.
#[verifier::external_body]
fn encode_text(s: &str) -> (res: String)
    ensures
        res@ == escape_text(s@),
{
    html_escape::encode_text(s).into_owned()
}

/// Appends the one-based line number of a zero-based index, nothing when absent.
fn push_line_number(html: &mut String, idx: Option<usize>)
    ensures
        final(html)@ == old(html)@ + line_number(idx),
{
    match idx {
        Some(n) => push_decimal(html, n as u128 + 1),
        None => {
            assert(old(html)@ + line_number(idx) == old(html)@);
        },
    }
}

/// The escaped text of a line without its trailing newlines.
fn line_cell(value: &String) -> (res: String)
    ensures
        res@ == escape_text(trim_trailing_newlines(value@)),
{
    let cs = chars_of(value.as_str());
    let mut end = cs.len();
    assert(cs@.take(end as int) == cs@);
    while end > 0 && cs[end - 1] == '\n'
        invariant
            end <= cs@.len(),
            trim_trailing_newlines(cs@) == trim_trailing_newlines(cs@.take(end as int)),
        decreases end,
    {
        assert(cs@.take(end as int).drop_last() == cs@.take(end - 1));
        end = end - 1;
    }
    let mut kept = String::new();
    let mut k: usize = 0;
    while k < end
        invariant
            k <= end <= cs@.len(),
            kept@ == cs@.take(k as int),
        decreases end - k,
    {
        push_char(&mut kept, cs[k]);
        assert(cs@.take(k + 1) == cs@.take(k as int).push(cs@[k as int]));
        k = k + 1;
    }
    assert(trim_trailing_newlines(cs@.take(end as int)) == cs@.take(end as int));
    encode_text(kept.as_str())
}

fn push_equal_row(html: &mut String, l: &DiffLine)
    ensures
        final(html)@ == old(html)@ + equal_row(l@),
{
    let text = line_cell(&l.value);
    push_str(html, "<tr><td class=\"line-num\">");
    push_line_number(html, l.old_index);
    push_str(html, "</td><td class=\"code-cell\">");
    push_str(html, text.as_str());
    push_str(html, "</td><td class=\"line-num right-num\">");
    push_line_number(html, l.new_index);
    push_str(html, "</td><td class=\"code-cell\">");
    push_str(html, text.as_str());
    push_str(html, "</td></tr>\n");
}

fn push_insert_row(html: &mut String, l: &DiffLine)
    ensures
        final(html)@ == old(html)@ + insert_row(l@),
{
    let text = line_cell(&l.value);
    push_str(
        html,
        "<tr><td class=\"line-num\"></td><td class=\"code-cell\"></td><td class=\"line-num right-num\">",
    );
    push_line_number(html, l.new_index);
    push_str(html, "</td><td class=\"code-cell diff-add\">");
    push_str(html, text.as_str());
    push_str(html, "</td></tr>\n");
}

/// The number cell, the class suffix and the text cell of one side of row `j`
/// of a replaced block whose lines on that side are `lines[start..start + count]`.
fn side_cells(
    lines: &Vec<DiffLine>,
    start: usize,
    count: usize,
    j: usize,
    old_side: bool,
    class: &str,
) -> (cells: (String, String, String))
    requires
        start + count <= lines@.len(),
    ensures
        cells.0@ == (if j < count {
            line_number(
                if old_side {
                    lines@[start + j].old_index
                } else {
                    lines@[start + j].new_index
                },
            )
        } else {
            seq![]
        }),
        cells.1@ == (if j < count {
            class@
        } else {
            seq![]
        }),
        cells.2@ == (if j < count {
            cell_text(lines@[start + j]@)
        } else {
            seq![]
        }),
{
    let mut num = String::new();
    let mut cls = String::new();
    // A vector's length is a `usize`: `start + j` below cannot overflow.
    let _len = lines.len();
    if j < count {
        let at = start + j;
        if old_side {
            push_line_number(&mut num, lines[at].old_index);
        } else {
            push_line_number(&mut num, lines[at].new_index);
        }
        push_str(&mut cls, class);
        let text = line_cell(&lines[at].value);
        (num, cls, text)
    } else {
        (num, cls, String::new())
    }
}

/// Row `j` of the replaced block whose deletions are `lines[del_start..del_start + dels]`
/// and whose insertions are `lines[ins_start..ins_start + ins]`.
fn push_pair_row(
    html: &mut String,
    lines: &Vec<DiffLine>,
    del_start: usize,
    dels: usize,
    ins_start: usize,
    ins: usize,
    j: usize,
)
    requires
        del_start + dels <= lines@.len(),
        ins_start + ins <= lines@.len(),
    ensures
        final(html)@ == old(html)@ + pair_row(
            lines_view(lines@).subrange(del_start as int, del_start + dels),
            lines_view(lines@).subrange(ins_start as int, ins_start + ins),
            j as int,
        ),
{
    let ghost ls = lines_view(lines@);
    let ghost dv = ls.subrange(del_start as int, del_start + dels);
    let ghost iv = ls.subrange(ins_start as int, ins_start + ins);
    let (left_num, left_class, left_text) = side_cells(lines, del_start, dels, j, true, " diff-del");
    let (right_num, right_class, right_text) = side_cells(lines, ins_start, ins, j, false, " diff-add");
    proof {
        if j < dels {
            assert(dv[j as int] == lines@[del_start + j]@);
        }
        if j < ins {
            assert(iv[j as int] == lines@[ins_start + j]@);
        }
    }
    push_str(html, "<tr><td class=\"line-num\">");
    push_str(html, left_num.as_str());
    push_str(html, "</td><td class=\"code-cell");
    push_str(html, left_class.as_str());
    push_str(html, "\">");
    push_str(html, left_text.as_str());
    push_str(html, "</td><td class=\"line-num right-num\">");
    push_str(html, right_num.as_str());
    push_str(html, "</td><td class=\"code-cell");
    push_str(html, right_class.as_str());
    push_str(html, "\">");
    push_str(html, right_text.as_str());
    push_str(html, "</td></tr>\n");
}

/// Appends the rows of all lines of one hunk.
fn push_hunk_lines(html: &mut String, lines: &Vec<DiffLine>)
    ensures
        final(html)@ == old(html)@ + render_from(lines_view(lines@), 0),
{
    let ghost ls = lines_view(lines@);
    let n = lines.len();
    let mut i: usize = 0;
    while i < n
        invariant
            n == lines@.len(),
            ls == lines_view(lines@),
            i <= n,
            html@ + render_from(ls, i as int) == old(html)@ + render_from(ls, 0),
        decreases n - i,
    {
        let tag = lines[i].tag;
        assert(ls[i as int] == lines@[i as int]@);
        if tag == LineKind::Equal {
            push_equal_row(html, &lines[i]);
            i = i + 1;
        } else if tag == LineKind::Insert {
            push_insert_row(html, &lines[i]);
            i = i + 1;
        } else {
            let start = i;
            let mut j = i;
            while j < n && lines[j].tag == LineKind::Delete
                invariant
                    n == lines@.len(),
                    ls == lines_view(lines@),
                    start <= j <= n,
                    run_len(ls, start as int, LineKind::Delete) == (j - start) + run_len(
                        ls,
                        j as int,
                        LineKind::Delete,
                    ),
                decreases n - j,
            {
                assert(ls[j as int] == lines@[j as int]@);
                j = j + 1;
            }
            proof {
                if j < n {
                    assert(ls[j as int] == lines@[j as int]@);
                }
            }
            let mid = j;
            while j < n && lines[j].tag == LineKind::Insert
                invariant
                    n == lines@.len(),
                    ls == lines_view(lines@),
                    mid <= j <= n,
                    run_len(ls, mid as int, LineKind::Insert) == (j - mid) + run_len(
                        ls,
                        j as int,
                        LineKind::Insert,
                    ),
                decreases n - j,
            {
                assert(ls[j as int] == lines@[j as int]@);
                j = j + 1;
            }
            proof {
                if j < n {
                    assert(ls[j as int] == lines@[j as int]@);
                }
            }
            let dels = mid - start;
            let ins = j - mid;
            let rows = if dels > ins { dels } else { ins };
            let ghost before = html@;
            let mut r: usize = 0;
            while r < rows
                invariant
                    start + dels == mid,
                    mid + ins == j,
                    j <= n,
                    n == lines@.len(),
                    ls == lines_view(lines@),
                    r <= rows,
                    html@ == before + paired_rows(
                        ls.subrange(start as int, mid as int),
                        ls.subrange(mid as int, j as int),
                        r as nat,
                    ),
                decreases rows - r,
            {
                push_pair_row(html, lines, start, dels, mid, ins, r);
                r = r + 1;
            }
            i = j;
        }
    }
}

/// The HTML table of a list of hunks, or the "(no changes)" note when there is none.
pub fn render_diff_table(hunks: &Vec<DiffHunk>) -> (html: String)
    ensures
        html@ == diff_table(hunks_view(hunks@)),
{
    let ghost hs = hunks_view(hunks@);
    if hunks.len() == 0 {
        return String::from_str("<div class=\"no-changes\">(no changes)</div>\n");
    }
    let mut html = String::new();
    push_str(
        &mut html,
        "<div class=\"diff-wrapper\"><table class=\"diff-table\">\n<colgroup><col class=\"line-num-col\"><col class=\"code-col\"><col class=\"line-num-col\"><col class=\"code-col\"></colgroup>\n",
    );
    let ghost opening = html@;
    let mut k: usize = 0;
    while k < hunks.len()
        invariant
            k <= hunks@.len(),
            hs == hunks_view(hunks@),
            html@ == opening + hunks_body(hs.take(k as int)),
        decreases hunks@.len() - k,
    {
        let header = encode_text(hunks[k].header.as_str());
        push_str(&mut html, "<tr class=\"diff-hunk\"><td colspan=\"4\">@@ ");
        push_str(&mut html, header.as_str());
        push_str(&mut html, " @@</td></tr>\n");
        push_hunk_lines(&mut html, &hunks[k].lines);
        proof {
            assert(hs.take(k + 1).drop_last() == hs.take(k as int));
            assert(hs.take(k + 1).last() == hunks@[k as int]@);
        }
        k = k + 1;
    }
    assert(hs.take(k as int) == hs);
    push_str(&mut html, "</table></div>\n");
    html
}

/// `t` occurs in `s` as one contiguous piece.
pub open spec fn shows(s: Seq<char>, t: Seq<char>) -> bool {
    exists|pre: Seq<char>, post: Seq<char>| #[trigger] (pre + t + post) == s
}

proof fn lemma_shows_at(s: Seq<char>, pre: Seq<char>, t: Seq<char>, post: Seq<char>)
    requires
        s == pre + t + post,
    ensures
        shows(s, t),
{
    assert(pre + t + post == s);
}

proof fn lemma_shows_trans(s: Seq<char>, t: Seq<char>, u: Seq<char>)
    requires
        shows(s, t),
        shows(t, u),
    ensures
        shows(s, u),
{
    let (p1, q1) = choose|pre: Seq<char>, post: Seq<char>| #[trigger] (pre + t + post) == s;
    let (p2, q2) = choose|pre: Seq<char>, post: Seq<char>| #[trigger] (pre + u + post) == t;
    assert(s =~= (p1 + p2) + u + (q2 + q1));
    lemma_shows_at(s, p1 + p2, u, q2 + q1);
}

/// Text shown in `x` is shown in `pre + x + post`.
proof fn lemma_shows_within(pre: Seq<char>, x: Seq<char>, post: Seq<char>, t: Seq<char>)
    requires
        shows(x, t),
    ensures
        shows(pre + x + post, t),
{
    lemma_shows_at(pre + x + post, pre, x, post);
    lemma_shows_trans(pre + x + post, x, t);
}

/// The lines `ls[i..i + n]` all carry `tag`, and `ls[i + n]` (if any) does not.
pub open spec fn maximal_run(ls: Seq<DiffLineView>, i: int, n: int, tag: LineKind) -> bool {
    &&& 0 <= i
    &&& 0 <= n
    &&& i + n <= ls.len()
    &&& forall|q: int| i <= q < i + n ==> #[trigger] ls[q].tag == tag
    &&& (i + n == ls.len() || ls[i + n].tag != tag)
}

proof fn lemma_run_len_exact(ls: Seq<DiffLineView>, i: int, n: int, tag: LineKind)
    requires
        maximal_run(ls, i, n, tag),
    ensures
        run_len(ls, i, tag) == n,
    decreases n,
{
    if n > 0 {
        assert(ls[i].tag == tag);
        assert(maximal_run(ls, i + 1, n - 1, tag));
        lemma_run_len_exact(ls, i + 1, n - 1, tag);
    }
}

proof fn lemma_run_len_tags(ls: Seq<DiffLineView>, i: int, tag: LineKind, q: int)
    requires
        0 <= i <= q < i + run_len(ls, i, tag),
    ensures
        ls[q].tag == tag,
    decreases q - i,
{
    if q > i {
        lemma_run_len_tags(ls, i + 1, tag, q);
    }
}

/// Position `s` starts a row of its own: nothing before it can draw it.
spec fn opens_row(ls: Seq<DiffLineView>, s: int) -> bool {
    ||| s == 0
    ||| ls[s - 1].tag == LineKind::Equal
    ||| ls[s].tag == LineKind::Equal
    ||| (ls[s].tag == LineKind::Delete && ls[s - 1].tag != LineKind::Delete)
}

/// The rows drawn from `i` on hold the rows drawn from `s` on, when no block
/// that starts before `s` reaches over it.
proof fn lemma_render_reaches(ls: Seq<DiffLineView>, i: int, s: int)
    requires
        0 <= i <= s < ls.len(),
        opens_row(ls, s),
    ensures
        shows(render_from(ls, i), render_from(ls, s)),
    decreases s - i,
{
    if i == s {
        lemma_shows_at(render_from(ls, s), seq![], render_from(ls, s), seq![]);
        assert(seq![] + render_from(ls, s) + seq![] =~= render_from(ls, s));
    } else if ls[i].tag == LineKind::Equal || ls[i].tag == LineKind::Insert {
        lemma_render_reaches(ls, i + 1, s);
        let row = if ls[i].tag == LineKind::Equal { equal_row(ls[i]) } else { insert_row(ls[i]) };
        assert(render_from(ls, i) == row + render_from(ls, i + 1));
        lemma_shows_within(row, render_from(ls, i + 1), seq![], render_from(ls, s));
        assert(row + render_from(ls, i + 1) + seq![] =~= render_from(ls, i));
    } else {
        let d = run_len(ls, i, LineKind::Delete);
        lemma_run_len_bound(ls, i, LineKind::Delete);
        let k = run_len(ls, i + d, LineKind::Insert);
        lemma_run_len_bound(ls, i + d, LineKind::Insert);
        assert(d >= 1);
        if i + d > s {
            lemma_run_len_tags(ls, i, LineKind::Delete, s);
            lemma_run_len_tags(ls, i, LineKind::Delete, s - 1);
            assert(false);
        }
        if i + d + k > s {
            lemma_run_len_tags(ls, i + d, LineKind::Insert, s);
            if i + d < s {
                lemma_run_len_tags(ls, i + d, LineKind::Insert, s - 1);
            } else {
                assert(ls[s - 1].tag == LineKind::Delete) by {
                    lemma_run_len_tags(ls, i, LineKind::Delete, s - 1);
                }
            }
            assert(false);
        }
        let rows = paired_rows(ls.subrange(i, i + d), ls.subrange(i + d, i + d + k), max_nat(d, k));
        assert(render_from(ls, i) == rows + render_from(ls, i + d + k));
        lemma_render_reaches(ls, i + d + k, s);
        lemma_shows_within(rows, render_from(ls, i + d + k), seq![], render_from(ls, s));
        assert(rows + render_from(ls, i + d + k) + seq![] =~= render_from(ls, i));
    }
}

proof fn lemma_paired_rows_show(dels: Seq<DiffLineView>, ins: Seq<DiffLineView>, n: nat, j: int)
    requires
        0 <= j < n,
    ensures
        shows(paired_rows(dels, ins, n), pair_row(dels, ins, j)),
    decreases n,
{
    let prev = paired_rows(dels, ins, (n - 1) as nat);
    let last = pair_row(dels, ins, n - 1);
    if j == n - 1 {
        lemma_shows_at(prev + last, prev, last, seq![]);
    } else {
        lemma_paired_rows_show(dels, ins, (n - 1) as nat, j);
        lemma_shows_within(seq![], prev, last, pair_row(dels, ins, j));
        assert(seq![] + prev + last =~= prev + last);
    }
}

proof fn lemma_paired_rows_show_next(dels: Seq<DiffLineView>, ins: Seq<DiffLineView>, n: nat, j: int)
    requires
        0 <= j,
        j + 1 < n,
    ensures
        shows(paired_rows(dels, ins, n), pair_row(dels, ins, j) + pair_row(dels, ins, j + 1)),
    decreases n,
{
    let prev = paired_rows(dels, ins, (n - 1) as nat);
    let last = pair_row(dels, ins, n - 1);
    if j + 1 == n - 1 {
        let before = paired_rows(dels, ins, (n - 2) as nat);
        assert(prev == before + pair_row(dels, ins, j));
        assert(before + (pair_row(dels, ins, j) + last) + seq![] =~= prev + last);
        lemma_shows_at(prev + last, before, pair_row(dels, ins, j) + last, seq![]);
    } else {
        lemma_paired_rows_show_next(dels, ins, (n - 1) as nat, j);
        assert(seq![] + prev + last =~= prev + last);
        lemma_shows_within(seq![], prev, last, pair_row(dels, ins, j) + pair_row(dels, ins, j + 1));
    }
}

/// The left half of a row showing the deleted line `l`: its old line number
/// and its escaped text in a `diff-del` cell.
pub open spec fn deleted_cell(l: DiffLineView) -> Seq<char> {
    "<tr><td class=\"line-num\">"@ + line_number(l.old_index) + "</td><td class=\"code-cell"@ + " diff-del"@
        + "\">"@ + cell_text(l) + "</td><td class=\"line-num right-num\">"@
}

/// The right half of a row showing the inserted line `l`: its new line number
/// and its escaped text in a `diff-add` cell.
pub open spec fn inserted_cell(l: DiffLineView) -> Seq<char> {
    "</td><td class=\"line-num right-num\">"@ + line_number(l.new_index) + "</td><td class=\"code-cell"@
        + " diff-add"@ + "\">"@ + cell_text(l) + "</td></tr>\n"@
}

/// A row with the deleted line `del` on the left and the line `ins` that
/// replaced it on the right.
pub open spec fn replaced_row(del: DiffLineView, ins: DiffLineView) -> Seq<char> {
    "<tr><td class=\"line-num\">"@ + line_number(del.old_index) + "</td><td class=\"code-cell"@ + " diff-del"@
        + "\">"@ + cell_text(del) + "</td><td class=\"line-num right-num\">"@ + line_number(ins.new_index)
        + "</td><td class=\"code-cell"@ + " diff-add"@ + "\">"@ + cell_text(ins) + "</td></tr>\n"@
}

/// A row with the unchanged line `l` on both sides.
pub open spec fn unchanged_row(l: DiffLineView) -> Seq<char> {
    "<tr><td class=\"line-num\">"@ + line_number(l.old_index) + "</td><td class=\"code-cell\">"@
        + cell_text(l) + "</td><td class=\"line-num right-num\">"@ + line_number(l.new_index)
        + "</td><td class=\"code-cell\">"@ + cell_text(l) + "</td></tr>\n"@
}

/// A row with a blank left side and the inserted line `l` on the right.
pub open spec fn added_row(l: DiffLineView) -> Seq<char> {
    "<tr><td class=\"line-num\"></td><td class=\"code-cell\"></td><td class=\"line-num right-num\">"@
        + line_number(l.new_index) + "</td><td class=\"code-cell diff-add\">"@ + cell_text(l)
        + "</td></tr>\n"@
}

proof fn lemma_pair_row_cells(dels: Seq<DiffLineView>, ins: Seq<DiffLineView>, j: int)
    requires
        0 <= j,
    ensures
        j < dels.len() ==> shows(pair_row(dels, ins, j), deleted_cell(dels[j])),
        j < ins.len() ==> shows(pair_row(dels, ins, j), inserted_cell(ins[j])),
        j < dels.len() && j < ins.len() ==> pair_row(dels, ins, j) == replaced_row(dels[j], ins[j]),
{
    let left_class = if j < dels.len() { " diff-del"@ } else { seq![] };
    let left_num = if j < dels.len() { line_number(dels[j].old_index) } else { seq![] };
    let left_text = if j < dels.len() { cell_text(dels[j]) } else { seq![] };
    let right_class = if j < ins.len() { " diff-add"@ } else { seq![] };
    let right_num = if j < ins.len() { line_number(ins[j].new_index) } else { seq![] };
    let right_text = if j < ins.len() { cell_text(ins[j]) } else { seq![] };
    let a = "<tr><td class=\"line-num\">"@ + left_num + "</td><td class=\"code-cell"@ + left_class + "\">"@
        + left_text;
    let mid = "</td><td class=\"line-num right-num\">"@;
    let b = right_num + "</td><td class=\"code-cell"@ + right_class + "\">"@ + right_text + "</td></tr>\n"@;
    assert(pair_row(dels, ins, j) =~= a + mid + b);
    if j < dels.len() {
        assert(deleted_cell(dels[j]) =~= a + mid);
        assert(seq![] + deleted_cell(dels[j]) + b =~= a + mid + b);
        lemma_shows_at(pair_row(dels, ins, j), seq![], deleted_cell(dels[j]), b);
    }
    if j < ins.len() {
        assert(inserted_cell(ins[j]) =~= mid + b);
        assert(a + inserted_cell(ins[j]) + seq![] =~= a + mid + b);
        lemma_shows_at(pair_row(dels, ins, j), a, inserted_cell(ins[j]), seq![]);
    }
}

/// The table of a list of hunks holds the rows of every one of its hunks.
proof fn lemma_table_holds_hunk(hs: Seq<DiffHunkView>, h: int)
    requires
        0 <= h < hs.len(),
    ensures
        shows(diff_table(hs), render_from(hs[h].lines, 0)),
{
    lemma_body_holds_hunk(hs, h);
    let open = "<div class=\"diff-wrapper\"><table class=\"diff-table\">\n<colgroup><col class=\"line-num-col\"><col class=\"code-col\"><col class=\"line-num-col\"><col class=\"code-col\"></colgroup>\n"@;
    lemma_shows_within(open, hunks_body(hs), "</table></div>\n"@, render_from(hs[h].lines, 0));
}

proof fn lemma_body_holds_hunk(hs: Seq<DiffHunkView>, h: int)
    requires
        0 <= h < hs.len(),
    ensures
        shows(hunks_body(hs), render_from(hs[h].lines, 0)),
    decreases hs.len(),
{
    let prev = hs.drop_last();
    let last = render_from(hs.last().lines, 0);
    if h == hs.len() - 1 {
        lemma_shows_at(hunks_body(hs), hunks_body(prev) + hunk_row(hs.last()), last, seq![]);
        assert(hunks_body(prev) + hunk_row(hs.last()) + last + seq![] =~= hunks_body(hs));
    } else {
        lemma_body_holds_hunk(prev, h);
        assert(prev[h] == hs[h]);
        lemma_shows_within(seq![], hunks_body(prev), hunk_row(hs.last()) + last, render_from(hs[h].lines, 0));
        assert(seq![] + hunks_body(prev) + (hunk_row(hs.last()) + last) =~= hunks_body(hs));
    }
}

/// A replaced block of a hunk (a maximal run of `d` deleted lines starting at
/// `s`, then the maximal run of `k` inserted lines right after it) is drawn
/// side by side: every deleted line appears with its old line number in a
/// `diff-del` cell, every inserted line with its new line number in a
/// `diff-add` cell, and the `j`-th deleted line shares its row with the
/// `j`-th inserted line for every `j` that both runs reach.
pub proof fn law_replaced_lines_shown_side_by_side(hs: Seq<DiffHunkView>, h: int, s: int, d: int, k: int)
    requires
        0 <= h < hs.len(),
        1 <= d,
        s == 0 || hs[h].lines[s - 1].tag != LineKind::Delete,
        maximal_run(hs[h].lines, s, d, LineKind::Delete),
        maximal_run(hs[h].lines, s + d, k, LineKind::Insert),
    ensures
        forall|j: int| 0 <= j < d ==> shows(diff_table(hs), #[trigger] deleted_cell(hs[h].lines[s + j])),
        forall|j: int| 0 <= j < k ==> shows(diff_table(hs), #[trigger] inserted_cell(hs[h].lines[s + d + j])),
        forall|j: int|
            0 <= j < d && j < k ==> shows(
                diff_table(hs),
                #[trigger] replaced_row(hs[h].lines[s + j], hs[h].lines[s + d + j]),
            ),
        forall|j: int|
            0 <= j && j + 1 < d && j + 1 < k ==> shows(
                diff_table(hs),
                #[trigger] replaced_row(hs[h].lines[s + j], hs[h].lines[s + d + j]) + replaced_row(
                    hs[h].lines[s + j + 1],
                    hs[h].lines[s + d + j + 1],
                ),
            ),
{
    let ls = hs[h].lines;
    lemma_run_len_exact(ls, s, d, LineKind::Delete);
    lemma_run_len_exact(ls, s + d, k, LineKind::Insert);
    assert(ls[s].tag == LineKind::Delete);
    assert(opens_row(ls, s));
    lemma_render_reaches(ls, 0, s);
    lemma_table_holds_hunk(hs, h);
    lemma_shows_trans(diff_table(hs), render_from(ls, 0), render_from(ls, s));
    let dels = ls.subrange(s, s + d);
    let ins = ls.subrange(s + d, s + d + k);
    let n = max_nat(d as nat, k as nat);
    let rows = paired_rows(dels, ins, n);
    assert(render_from(ls, s) == rows + render_from(ls, s + d + k));
    lemma_shows_at(render_from(ls, s), seq![], rows, render_from(ls, s + d + k));
    assert(seq![] + rows + render_from(ls, s + d + k) =~= render_from(ls, s));
    lemma_shows_trans(diff_table(hs), render_from(ls, s), rows);
    assert forall|j: int| 0 <= j < d implies shows(diff_table(hs), #[trigger] deleted_cell(ls[s + j])) by {
        lemma_paired_rows_show(dels, ins, n, j);
        lemma_pair_row_cells(dels, ins, j);
        assert(dels[j] == ls[s + j]);
        lemma_shows_trans(diff_table(hs), rows, pair_row(dels, ins, j));
        lemma_shows_trans(diff_table(hs), pair_row(dels, ins, j), deleted_cell(ls[s + j]));
    }
    assert forall|j: int| 0 <= j < k implies shows(diff_table(hs), #[trigger] inserted_cell(ls[s + d + j])) by {
        lemma_paired_rows_show(dels, ins, n, j);
        lemma_pair_row_cells(dels, ins, j);
        assert(ins[j] == ls[s + d + j]);
        lemma_shows_trans(diff_table(hs), rows, pair_row(dels, ins, j));
        lemma_shows_trans(diff_table(hs), pair_row(dels, ins, j), inserted_cell(ls[s + d + j]));
    }
    assert forall|j: int| 0 <= j < d && j < k implies shows(
        diff_table(hs),
        #[trigger] replaced_row(ls[s + j], ls[s + d + j]),
    ) by {
        lemma_paired_rows_show(dels, ins, n, j);
        lemma_pair_row_cells(dels, ins, j);
        assert(dels[j] == ls[s + j]);
        assert(ins[j] == ls[s + d + j]);
        lemma_shows_trans(diff_table(hs), rows, pair_row(dels, ins, j));
    }
    assert forall|j: int| 0 <= j && j + 1 < d && j + 1 < k implies shows(
        diff_table(hs),
        #[trigger] replaced_row(ls[s + j], ls[s + d + j]) + replaced_row(ls[s + j + 1], ls[s + d + j + 1]),
    ) by {
        lemma_paired_rows_show_next(dels, ins, n, j);
        lemma_pair_row_cells(dels, ins, j);
        lemma_pair_row_cells(dels, ins, j + 1);
        assert(dels[j] == ls[s + j]);
        assert(ins[j] == ls[s + d + j]);
        assert(dels[j + 1] == ls[s + j + 1]);
        assert(ins[j + 1] == ls[s + d + j + 1]);
        lemma_shows_trans(
            diff_table(hs),
            rows,
            pair_row(dels, ins, j) + pair_row(dels, ins, j + 1),
        );
    }
}

/// Every unchanged line of a hunk is drawn on both sides, and an inserted
/// line right after an unchanged one (or first in its hunk) is drawn with a
/// blank left side.
pub proof fn law_unchanged_and_added_lines_shown(hs: Seq<DiffHunkView>, h: int, p: int)
    requires
        0 <= h < hs.len(),
        0 <= p < hs[h].lines.len(),
    ensures
        hs[h].lines[p].tag == LineKind::Equal ==> shows(diff_table(hs), unchanged_row(hs[h].lines[p])),
        hs[h].lines[p].tag == LineKind::Insert && (p == 0 || hs[h].lines[p - 1].tag == LineKind::Equal)
            ==> shows(diff_table(hs), added_row(hs[h].lines[p])),
        hs[h].lines[p].tag == LineKind::Equal && p + 1 < hs[h].lines.len() && hs[h].lines[p + 1].tag
            == LineKind::Equal ==> shows(
            diff_table(hs),
            unchanged_row(hs[h].lines[p]) + unchanged_row(hs[h].lines[p + 1]),
        ),
{
    let ls = hs[h].lines;
    if ls[p].tag == LineKind::Equal || (ls[p].tag == LineKind::Insert && (p == 0 || ls[p - 1].tag
        == LineKind::Equal)) {
        assert(opens_row(ls, p));
        lemma_render_reaches(ls, 0, p);
        lemma_table_holds_hunk(hs, h);
        lemma_shows_trans(diff_table(hs), render_from(ls, 0), render_from(ls, p));
        let row = if ls[p].tag == LineKind::Equal { equal_row(ls[p]) } else { insert_row(ls[p]) };
        assert(render_from(ls, p) == row + render_from(ls, p + 1));
        lemma_shows_at(render_from(ls, p), seq![], row, render_from(ls, p + 1));
        assert(seq![] + row + render_from(ls, p + 1) =~= render_from(ls, p));
        lemma_shows_trans(diff_table(hs), render_from(ls, p), row);
        if ls[p].tag == LineKind::Equal && p + 1 < ls.len() && ls[p + 1].tag == LineKind::Equal {
            let two = equal_row(ls[p]) + equal_row(ls[p + 1]);
            assert(render_from(ls, p + 1) == equal_row(ls[p + 1]) + render_from(ls, p + 2));
            assert(seq![] + two + render_from(ls, p + 2) =~= render_from(ls, p));
            lemma_shows_at(render_from(ls, p), seq![], two, render_from(ls, p + 2));
            lemma_shows_trans(diff_table(hs), render_from(ls, p), two);
        }
    }
}

/// Escaped text never holds a `<` or a `>`: text put into a table cell
/// cannot open or close an element.
pub proof fn law_escaped_text_has_no_markup(s: Seq<char>)
    ensures
        !escape_text(s).contains('<'),
        !escape_text(s).contains('>'),
    decreases s.len(),
{
    reveal_strlit("&amp;");
    reveal_strlit("&lt;");
    reveal_strlit("&gt;");
    if s.len() > 0 {
        law_escaped_text_has_no_markup(s.drop_last());
        let e = escape_char(s.last());
        assert(!e.contains('<') && !e.contains('>'));
        let r = escape_text(s.drop_last());
        assert forall|c: char| (r + e).contains(c) implies r.contains(c) || e.contains(c) by {
            let k = choose|k: int| 0 <= k < (r + e).len() && (r + e)[k] == c;
            if k < r.len() {
                assert(r[k] == c);
            } else {
                assert(e[k - r.len()] == c);
            }
        }
    }
}

/// Text without `&`, `<` and `>` is shown as it is.
pub proof fn law_plain_text_is_unescaped(s: Seq<char>)
    requires
        !s.contains('&'),
        !s.contains('<'),
        !s.contains('>'),
    ensures
        escape_text(s) == s,
    decreases s.len(),
{
    if s.len() > 0 {
        assert(!s.drop_last().contains('&') && !s.drop_last().contains('<') && !s.drop_last().contains('>')) by {
            assert forall|c: char| s.drop_last().contains(c) implies s.contains(c) by {
                let k = choose|k: int| 0 <= k < s.drop_last().len() && s.drop_last()[k] == c;
                assert(s[k] == c);
            }
        }
        law_plain_text_is_unescaped(s.drop_last());
        assert(s.contains(s.last()));
        assert(s.drop_last().push(s.last()) == s);
    }
}

} // verus!
