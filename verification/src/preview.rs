//! The preview of a Markdown text as runs of styled text: headings, quotes
//! and list items by the start of a line, and bold, italic and code spans
//! inside the other lines.

use crate::markdown::{find_char, first_char, lemma_first_char_bounds};
use crate::text::{chars_of, extend_range, has_at, matches_at, string_of};
use vstd::prelude::*;

verus! {

/// How a run of text is drawn.
#[derive(Clone, Copy, PartialEq, Eq, Structural, Debug)]
pub enum Style {
    Plain,
    Heading1,
    Heading2,
    Heading3,
    Quote,
    Bullet,
    Bold,
    Italic,
    Code,
}

/// A run of text in one style.
#[derive(Debug, PartialEq, Eq)]
pub struct Run {
    pub text: String,
    pub style: Style,
}

pub struct RunView {
    pub text: Seq<char>,
    pub style: Style,
}

impl View for Run {
    type V = RunView;

    open spec fn view(&self) -> RunView {
        RunView { text: self.text@, style: self.style }
    }
}

/// The values of the runs of `v`, in order.
pub open spec fn run_views(v: Seq<Run>) -> Seq<RunView> {
    Seq::new(v.len(), |i: int| v[i]@)
}

/// One span inside a line: its style, where its text starts and ends, and
/// where the scan goes on.
pub struct Span {
    pub style: Style,
    pub lo: int,
    pub hi: int,
    pub next: int,
}

/// The span that starts at position `i` of a line. Two stars open a bold
/// span if the next star is followed by another; a star or an underscore
/// that does not repeat the character before it opens an italic span up to
/// its next occurrence; a backtick opens a code span up to the next
/// backtick; any other character, and an opener that is never closed, is a
/// plain run of its own.
pub open spec fn span_at(s: Seq<char>, i: int) -> Span {
    let bold_end = first_char(s, '*', i + 2);
    let mark_end = first_char(s, s[i], i + 1);
    if i + 1 < s.len() && s[i] == '*' && s[i + 1] == '*' && bold_end + 1 < s.len() && s[bold_end
        + 1] == '*' {
        Span { style: Style::Bold, lo: i + 2, hi: bold_end, next: bold_end + 2 }
    } else if (s[i] == '*' || s[i] == '_') && (i == 0 || s[i - 1] != s[i]) && mark_end < s.len() {
        Span { style: Style::Italic, lo: i + 1, hi: mark_end, next: mark_end + 1 }
    } else if s[i] == '`' && mark_end < s.len() {
        Span { style: Style::Code, lo: i + 1, hi: mark_end, next: mark_end + 1 }
    } else {
        Span { style: Style::Plain, lo: i, hi: i + 1, next: i + 1 }
    }
}

/// A span lies inside its line and the scan moves on behind it.
pub proof fn lemma_span_bounds(s: Seq<char>, i: int)
    requires
        0 <= i < s.len(),
    ensures
        i <= span_at(s, i).lo <= span_at(s, i).hi <= s.len(),
        i < span_at(s, i).next <= s.len(),
{
    lemma_first_char_bounds(s, s[i], i + 1);
    if i + 2 <= s.len() {
        lemma_first_char_bounds(s, '*', i + 2);
    }
}

/// The runs of a line from position `i` on, span by span.
pub open spec fn inline_runs(s: Seq<char>, i: int) -> Seq<RunView>
    decreases s.len() - i,
    via inline_runs_decreases
{
    if i < 0 || i >= s.len() {
        Seq::empty()
    } else {
        let span = span_at(s, i);
        seq![RunView { text: s.subrange(span.lo, span.hi), style: span.style }] + inline_runs(
            s,
            span.next,
        )
    }
}

#[via_fn]
proof fn inline_runs_decreases(s: Seq<char>, i: int) {
    if 0 <= i < s.len() {
        lemma_span_bounds(s, i);
    }
}

/// The runs of one line. A line that starts with one, two or three `#` and
/// a space is a heading of that level; one that starts with `>` and a space
/// is a quote; one that starts with `-` or `*` and a space is a list item,
/// shown behind a bullet; each is one run without its start. Any other line
/// is read span by span.
pub open spec fn line_runs(line: Seq<char>) -> Seq<RunView> {
    if has_at(line, "# "@, 0) {
        seq![RunView { text: line.skip(2), style: Style::Heading1 }]
    } else if has_at(line, "## "@, 0) {
        seq![RunView { text: line.skip(3), style: Style::Heading2 }]
    } else if has_at(line, "### "@, 0) {
        seq![RunView { text: line.skip(4), style: Style::Heading3 }]
    } else if has_at(line, "> "@, 0) {
        seq![RunView { text: line.skip(2), style: Style::Quote }]
    } else if has_at(line, "- "@, 0) || has_at(line, "* "@, 0) {
        seq![RunView { text: "• "@ + line.skip(2), style: Style::Bullet }]
    } else {
        inline_runs(line, 0)
    }
}

/// The line that starts at `i` and ends before `e`, without the carriage
/// return that stands before a line feed.
pub open spec fn line_between(s: Seq<char>, i: int, e: int) -> Seq<char> {
    if i < e < s.len() && s[e - 1] == '\r' {
        s.subrange(i, e - 1)
    } else {
        s.subrange(i, e)
    }
}

/// The preview of the text from position `i` on: the runs of every line,
/// each line followed by a plain line feed. A line feed at the very end
/// starts no further line.
pub open spec fn preview_from(s: Seq<char>, i: int) -> Seq<RunView>
    decreases s.len() - i,
    via preview_from_decreases
{
    if i < 0 || i >= s.len() {
        Seq::empty()
    } else {
        let e = first_char(s, '\n', i);
        line_runs(line_between(s, i, e)) + seq![
            RunView { text: seq!['\n'], style: Style::Plain },
        ] + if e + 1 < s.len() {
            preview_from(s, e + 1)
        } else {
            Seq::empty()
        }
    }
}

#[via_fn]
proof fn preview_from_decreases(s: Seq<char>, i: int) {
    if 0 <= i < s.len() {
        lemma_first_char_bounds(s, '\n', i);
    }
}

/// The preview of a Markdown text.
pub open spec fn preview_of(s: Seq<char>) -> Seq<RunView> {
    preview_from(s, 0)
}

fn push_run(out: &mut Vec<Run>, src: &Vec<char>, lo: usize, hi: usize, style: Style)
    requires
        lo <= hi <= src.len(),
    ensures
        run_views(final(out)@) == run_views(old(out)@).push(
            RunView { text: src@.subrange(lo as int, hi as int), style },
        ),
{
    let mut text: Vec<char> = Vec::new();
    extend_range(&mut text, src, lo, hi);
    assert(text@ =~= src@.subrange(lo as int, hi as int));
    out.push(Run { text: string_of(&text), style });
    assert(run_views(out@) =~= run_views(old(out)@).push(
        RunView { text: src@.subrange(lo as int, hi as int), style },
    ));
}

/// Reads a line span by span.
pub fn render_inline_markdown(out: &mut Vec<Run>, line: &Vec<char>)
    ensures
        run_views(final(out)@) == run_views(old(out)@) + inline_runs(line@, 0),
{
    let n = line.len();
    let mut i: usize = 0;
    while i < n
        invariant
            i <= n,
            n == line.len(),
            run_views(out@) + inline_runs(line@, i as int) == run_views(old(out)@) + inline_runs(
                line@,
                0,
            ),
        decreases n - i,
    {
        let ghost before = run_views(out@);
        let ghost span = span_at(line@, i as int);
        proof {
            lemma_span_bounds(line@, i as int);
        }
        let c = line[i];
        let mark_end = find_char(line, c, i + 1);
        let mut next: usize = i + 1;
        let mut done = false;
        if i + 1 < n && c == '*' && line[i + 1] == '*' {
            let bold_end = find_char(line, '*', i + 2);
            if bold_end < n && bold_end + 1 < n && line[bold_end + 1] == '*' {
                push_run(out, line, i + 2, bold_end, Style::Bold);
                next = bold_end + 2;
                done = true;
            }
        }
        if !done && (c == '*' || c == '_') && (i == 0 || line[i - 1] != c) && mark_end < n {
            push_run(out, line, i + 1, mark_end, Style::Italic);
            next = mark_end + 1;
            done = true;
        }
        if !done && c == '`' && mark_end < n {
            push_run(out, line, i + 1, mark_end, Style::Code);
            next = mark_end + 1;
            done = true;
        }
        if !done {
            push_run(out, line, i, i + 1, Style::Plain);
        }
        assert(next == span.next);
        assert(run_views(out@) == before.push(
            RunView { text: line@.subrange(span.lo, span.hi), style: span.style },
        ));
        assert(run_views(out@) + inline_runs(line@, next as int) =~= before + inline_runs(
            line@,
            i as int,
        ));
        i = next;
    }
    assert(run_views(out@) + Seq::<RunView>::empty() =~= run_views(out@));
}

fn starts(line: &Vec<char>, start: &str) -> (b: bool)
    ensures
        b == has_at(line@, start@, 0),
{
    let pattern = chars_of(start);
    matches_at(line, &pattern, 0)
}

fn push_rest(out: &mut Vec<Run>, line: &Vec<char>, from: usize, style: Style)
    requires
        from <= line.len(),
    ensures
        run_views(final(out)@) == run_views(old(out)@) + seq![
            RunView { text: line@.skip(from as int), style },
        ],
{
    push_run(out, line, from, line.len(), style);
    assert(line@.subrange(from as int, line.len() as int) =~= line@.skip(from as int));
    assert(run_views(out@) =~= run_views(old(out)@) + seq![
        RunView { text: line@.skip(from as int), style },
    ]);
}

/// Reads one line.
pub fn render_line(out: &mut Vec<Run>, line: &Vec<char>)
    ensures
        run_views(final(out)@) == run_views(old(out)@) + line_runs(line@),
{
    proof {
        reveal_strlit("# ");
        reveal_strlit("## ");
        reveal_strlit("### ");
        reveal_strlit("> ");
        reveal_strlit("- ");
        reveal_strlit("* ");
    }
    if starts(line, "# ") {
        push_rest(out, line, 2, Style::Heading1);
    } else if starts(line, "## ") {
        push_rest(out, line, 3, Style::Heading2);
    } else if starts(line, "### ") {
        push_rest(out, line, 4, Style::Heading3);
    } else if starts(line, "> ") {
        push_rest(out, line, 2, Style::Quote);
    } else if starts(line, "- ") || starts(line, "* ") {
        let mut text = chars_of("• ");
        extend_range(&mut text, line, 2, line.len());
        assert(text@ =~= "• "@ + line@.skip(2));
        out.push(Run { text: string_of(&text), style: Style::Bullet });
        assert(run_views(out@) =~= run_views(old(out)@) + seq![
            RunView { text: "• "@ + line@.skip(2), style: Style::Bullet },
        ]);
    } else {
        render_inline_markdown(out, line);
    }
}

/// The preview of a Markdown text as styled runs.
pub fn render_preview(markdown: &str) -> (r: Vec<Run>)
    ensures
        run_views(r@) == preview_of(markdown@),
{
    let v = chars_of(markdown);
    let mut out: Vec<Run> = Vec::new();
    let mut i: usize = 0;
    assert(run_views(out@) =~= Seq::<RunView>::empty());
    while i < v.len()
        invariant
            i <= v.len(),
            run_views(out@) + preview_from(v@, i as int) == preview_of(v@),
        decreases v.len() - i,
    {
        let ghost before = run_views(out@);
        let e = find_char(&v, '\n', i);
        let end = if i < e && e < v.len() && v[e - 1] == '\r' {
            e - 1
        } else {
            e
        };
        let mut line: Vec<char> = Vec::new();
        extend_range(&mut line, &v, i, end);
        assert(line@ =~= line_between(v@, i as int, e as int));
        render_line(&mut out, &line);
        let ghost mid = run_views(out@);
        let mut feed: Vec<char> = Vec::new();
        feed.push('\n');
        push_run(&mut out, &feed, 0, 1, Style::Plain);
        assert(feed@.subrange(0, 1) =~= seq!['\n']);
        let next = if e < v.len() {
            e + 1
        } else {
            e
        };
        assert(run_views(out@) + preview_from(v@, next as int) =~= before + preview_from(
            v@,
            i as int,
        ));
        i = next;
    }
    assert(run_views(out@) + Seq::<RunView>::empty() =~= run_views(out@));
    out
}

} // verus!
