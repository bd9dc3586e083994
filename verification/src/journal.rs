//! The flow journal: all flows seen as one document, with its totals and its
//! readable form.

use crate::clock::{stamp, stamp_text};
use crate::models::{views, Flow, FlowView};
use crate::text::{decimal, push_decimal, token_count};
use vstd::prelude::*;
use vstd::string::StringExecFns;

verus! {

/// The words of the first `n` flows, added up.
pub open spec fn total_words(flows: Seq<FlowView>, n: nat) -> nat
    decreases n,
{
    if n == 0 || n > flows.len() {
        0
    } else {
        total_words(flows, (n - 1) as nat) + token_count(flows[n - 1].content)
    }
}

/// The seconds that the first `n` flows took, added up.
pub open spec fn total_seconds(flows: Seq<FlowView>, n: nat) -> nat
    decreases n,
{
    if n == 0 || n > flows.len() {
        0
    } else {
        total_seconds(flows, (n - 1) as nat) + flows[n - 1].actual_duration_seconds as nat
    }
}

/// The totals of more flows are no smaller.
pub proof fn lemma_totals_grow(flows: Seq<FlowView>, i: nat, n: nat)
    requires
        i <= n <= flows.len(),
    ensures
        total_words(flows, i) <= total_words(flows, n),
        total_seconds(flows, i) <= total_seconds(flows, n),
    decreases n - i,
{
    if i < n {
        lemma_totals_grow(flows, i, (n - 1) as nat);
    }
}

/// Both totals of `flows` can be held in the machine's integers.
pub open spec fn totals_fit(flows: Seq<FlowView>) -> bool {
    total_words(flows, flows.len()) <= usize::MAX && total_seconds(flows, flows.len())
        <= u64::MAX
}

/// A duration as hours and minutes; the hours are left out where there are
/// none, and seconds are dropped.
pub open spec fn duration_text(seconds: nat) -> Seq<char> {
    if seconds / 3600 > 0 {
        decimal(seconds / 3600) + "h "@ + decimal((seconds % 3600) / 60) + "m"@
    } else {
        decimal((seconds % 3600) / 60) + "m"@
    }
}

/// Writes a duration as hours and minutes.
pub fn format_duration(seconds: u64) -> (r: String)
    ensures
        r@ == duration_text(seconds as nat),
{
    let hours = seconds / 3600;
    let minutes = (seconds % 3600) / 60;
    let mut out = String::new();
    if hours > 0 {
        push_decimal(&mut out, hours);
        out.append("h ");
    }
    push_decimal(&mut out, minutes);
    out.append("m");
    assert(out@ =~= duration_text(seconds as nat));
    out
}

/// The pattern of the date above a flow in the journal.
pub open spec fn heading_pattern() -> Seq<char> {
    "%B %d, %Y at %H:%M"@
}

/// The line of totals at the top of the journal.
pub open spec fn journal_head(sessions: nat, words: nat, seconds: nat) -> Seq<char> {
    "# Flow Journal\n\n"@ + "*Total sessions: "@ + decimal(sessions) + " | Total words: "@
        + decimal(words) + " | Total time: "@ + duration_text(seconds) + "*\n\n"@ + "---\n\n"@
}

/// One flow in the journal: its date, its requested minutes and its words,
/// then its text and a rule.
pub open spec fn journal_section(flow: FlowView) -> Seq<char> {
    "## "@ + stamp(flow.created_at, heading_pattern()) + "\n\n"@ + "*"@ + decimal(
        flow.duration_minutes as nat,
    ) + " minutes | "@ + decimal(token_count(flow.content)) + " words*\n\n"@ + flow.content
        + "\n\n---\n\n"@
}

/// The first `n` flows in the journal, one after the other.
pub open spec fn journal_sections(flows: Seq<FlowView>, n: nat) -> Seq<char>
    decreases n,
{
    if n == 0 || n > flows.len() {
        Seq::empty()
    } else {
        journal_sections(flows, (n - 1) as nat) + journal_section(flows[n - 1])
    }
}

/// All flows as one document.
#[derive(Debug, PartialEq, Eq)]
pub struct FlowDocument {
    pub flows: Vec<Flow>,
    pub total_word_count: usize,
    pub total_time_seconds: u64,
}

pub struct FlowDocumentView {
    pub flows: Seq<FlowView>,
    pub total_word_count: nat,
    pub total_time_seconds: nat,
}

impl View for FlowDocument {
    type V = FlowDocumentView;

    open spec fn view(&self) -> FlowDocumentView {
        FlowDocumentView {
            flows: views(self.flows@),
            total_word_count: self.total_word_count as nat,
            total_time_seconds: self.total_time_seconds as nat,
        }
    }
}

impl FlowDocumentView {
    /// The document of `flows`, with the totals that follow from them.
    pub open spec fn of(flows: Seq<FlowView>) -> FlowDocumentView {
        FlowDocumentView {
            flows,
            total_word_count: total_words(flows, flows.len()),
            total_time_seconds: total_seconds(flows, flows.len()),
        }
    }

    /// The document in its readable form.
    pub open spec fn markdown(self) -> Seq<char> {
        journal_head(self.flows.len(), self.total_word_count, self.total_time_seconds)
            + journal_sections(self.flows, self.flows.len())
    }
}

impl FlowDocument {
    /// Decides whether the totals of `flows` can be held.
    pub fn totals_fit(flows: &Vec<Flow>) -> (b: bool)
        ensures
            b == totals_fit(views(flows@)),
    {
        let mut words: usize = 0;
        let mut seconds: u64 = 0;
        let mut i: usize = 0;
        while i < flows.len()
            invariant
                i <= flows.len(),
                words == total_words(views(flows@), i as nat),
                seconds == total_seconds(views(flows@), i as nat),
            decreases flows.len() - i,
        {
            let w = flows[i].word_count();
            let s = flows[i].actual_duration_seconds;
            if w > usize::MAX - words || s > u64::MAX - seconds {
                proof {
                    lemma_totals_grow(views(flows@), (i + 1) as nat, flows.len() as nat);
                }
                return false;
            }
            words = words + w;
            seconds = seconds + s;
            i += 1;
        }
        true
    }

    /// The document of `flows`, with its totals.
    pub fn new(flows: Vec<Flow>) -> (r: Self)
        requires
            totals_fit(views(flows@)),
        ensures
            r@ == FlowDocumentView::of(views(flows@)),
    {
        let mut words: usize = 0;
        let mut seconds: u64 = 0;
        let mut i: usize = 0;
        while i < flows.len()
            invariant
                i <= flows.len(),
                totals_fit(views(flows@)),
                words == total_words(views(flows@), i as nat),
                seconds == total_seconds(views(flows@), i as nat),
            decreases flows.len() - i,
        {
            proof {
                lemma_totals_grow(views(flows@), (i + 1) as nat, flows.len() as nat);
            }
            words = words + flows[i].word_count();
            seconds = seconds + flows[i].actual_duration_seconds;
            i += 1;
        }
        FlowDocument { flows, total_word_count: words, total_time_seconds: seconds }
    }

    /// The document in its readable form: the totals, then every flow.
    pub fn to_markdown(&self) -> (r: String)
        ensures
            r@ == self@.markdown(),
    {
        let mut out = String::new();
        out.append("# Flow Journal\n\n");
        out.append("*Total sessions: ");
        push_decimal(&mut out, self.flows.len() as u64);
        out.append(" | Total words: ");
        push_decimal(&mut out, self.total_word_count as u64);
        out.append(" | Total time: ");
        let time = format_duration(self.total_time_seconds);
        out.append(time.as_str());
        out.append("*\n\n");
        out.append("---\n\n");
        assert(out@ =~= journal_head(
            self@.flows.len(),
            self@.total_word_count,
            self@.total_time_seconds,
        ));
        let ghost head = out@;
        let mut i: usize = 0;
        while i < self.flows.len()
            invariant
                i <= self.flows.len(),
                out@ == head + journal_sections(self@.flows, i as nat),
            decreases self.flows.len() - i,
        {
            let section = journal_entry(&self.flows[i]);
            out.append(section.as_str());
            assert(out@ =~= head + journal_sections(self@.flows, (i + 1) as nat));
            i += 1;
        }
        out
    }
}

/// The line of totals above the list of flows.
pub open spec fn stats_text(doc: FlowDocumentView) -> Seq<char> {
    decimal(doc.flows.len()) + " sessions • "@ + decimal(doc.total_word_count)
        + " total words • "@ + duration_text(doc.total_time_seconds) + " total time"@
}

/// Writes the line of totals above the list of flows.
pub fn stats_line(doc: &FlowDocument) -> (r: String)
    ensures
        r@ == stats_text(doc@),
{
    let mut out = String::new();
    push_decimal(&mut out, doc.flows.len() as u64);
    out.append(" sessions • ");
    push_decimal(&mut out, doc.total_word_count as u64);
    out.append(" total words • ");
    let time = format_duration(doc.total_time_seconds);
    out.append(time.as_str());
    out.append(" total time");
    out
}

/// Writes what stands below a flow's date in the list of flows.
pub fn flow_subtitle(flow: &Flow) -> (r: String)
    ensures
        r@ == decimal(flow@.duration_minutes as nat) + " min • "@ + decimal(
            token_count(flow@.content),
        ) + " words"@,
{
    let mut out = String::new();
    push_decimal(&mut out, flow.duration_minutes as u64);
    out.append(" min • ");
    push_decimal(&mut out, flow.word_count() as u64);
    out.append(" words");
    out
}

/// Writes one flow as it stands in the journal document.
pub fn journal_entry(flow: &Flow) -> (r: String)
    ensures
        r@ == journal_section(flow@),
{
    let mut out = String::new();
    out.append("## ");
    let date = stamp_text(flow.created_at, "%B %d, %Y at %H:%M");
    out.append(date.as_str());
    out.append("\n\n");
    out.append("*");
    push_decimal(&mut out, flow.duration_minutes as u64);
    out.append(" minutes | ");
    push_decimal(&mut out, flow.word_count() as u64);
    out.append(" words*\n\n");
    out.append(flow.content.as_str());
    out.append("\n\n---\n\n");
    assert(out@ =~= journal_section(flow@));
    out
}

} // verus!
