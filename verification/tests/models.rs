use abbey::clock::{stamp_text, Timestamp};
use abbey::journal::{
    flow_subtitle, format_duration, journal_entry, stats_line, FlowDocument,
};
use abbey::models::{count_words, Composition, Flow, Folder, Note, Project};
use abbey::settings::{flow_duration, theme_id, MicroblogSettings, Settings};

fn at(secs: i64) -> Timestamp {
    Timestamp { secs, nanos: 0 }
}

fn ids(list: &[&str]) -> Vec<String> {
    list.iter().map(|s| s.to_string()).collect()
}

#[test]
fn the_calendar_writes_an_instant() {
    let t = at(1_431_648_000);
    assert_eq!(stamp_text(t, "%Y-%m-%d %H:%M"), "2015-05-15 00:00");
    assert_eq!(stamp_text(t, "%B %d, %Y at %H:%M"), "May 15, 2015 at 00:00");
    assert_eq!(stamp_text(at(1_431_648_000 + 13 * 3600 + 5 * 60 + 59), "%H:%M"), "13:05");
}

#[test]
fn the_calendar_gives_no_text_outside_its_range() {
    assert_eq!(stamp_text(at(i64::MAX), "%Y"), "");
    assert_eq!(stamp_text(Timestamp { secs: 0, nanos: 2_000_000_000 }, "%Y"), "");
    assert_eq!(stamp_text(at(0), "%Q"), "");
}

#[test]
fn instants_are_ordered_by_seconds_then_nanoseconds() {
    let a = Timestamp { secs: 5, nanos: 900 };
    let b = Timestamp { secs: 6, nanos: 0 };
    assert!(b.is_at_or_after(&a));
    assert!(!a.is_at_or_after(&b));
    assert!(a.is_at_or_after(&a));
    assert_eq!(a.later_of(b), b);
    assert_eq!(b.later_of(a), b);
    assert_eq!(Timestamp { secs: 5, nanos: 1 }.later_of(Timestamp { secs: 5, nanos: 2 }).nanos, 2);
}

#[test]
fn words_are_white_space_delimited_tokens() {
    assert_eq!(count_words("Hello world"), 2);
    assert_eq!(count_words("# Header\n\nSome **bold** text"), 5);
    assert_eq!(count_words(""), 0);
}

#[test]
fn a_composition_starts_empty() {
    let c = Composition::with("id".to_string(), "Title".to_string(), at(9));
    assert_eq!(c.id, "id");
    assert_eq!(c.title, "Title");
    assert_eq!(c.content, "");
    assert!(c.notes.is_empty());
    assert!(c.tags.is_empty());
    assert_eq!(c.created_at, at(9));
    assert_eq!(c.updated_at, at(9));
    assert!(!c.archived);
    assert_eq!(c.word_count, 0);
    assert_eq!(c.folder_id, None);
}

#[test]
fn a_new_composition_is_titled_with_its_minute() {
    let c = Composition::new();
    assert_eq!(c.title, stamp_text(c.created_at, "%Y-%m-%d %H:%M"));
    assert_eq!(c.id.len(), 36);
    assert_ne!(c.id, Composition::new().id);
    let d = Composition::default();
    assert_eq!(d.content, "");
}

#[test]
fn the_cached_word_count_follows_the_content() {
    let mut c = Composition::with("id".to_string(), "t".to_string(), at(0));
    c.content = "three little words".to_string();
    assert_eq!(c.word_count, 0);
    c.update_word_count();
    assert_eq!(c.word_count, 3);
    c.touch(at(5));
    assert_eq!(c.updated_at, at(5));
    c.touch(at(2));
    assert_eq!(c.updated_at, at(5));
}

#[test]
fn copies_are_equal_to_what_they_copy() {
    let mut c = Composition::with("id".to_string(), "t".to_string(), at(0));
    c.notes.push(Note::with("n".to_string(), "note".to_string(), at(1)));
    c.tags.push("tag".to_string());
    c.folder_id = Some("f".to_string());
    assert_eq!(c.clone(), c);
    let f = Folder::with("f".to_string(), "name".to_string(), at(2));
    assert_eq!(f.clone(), f);
    assert!(f.expanded);
    let flow = Flow::with("x".to_string(), 5, at(3));
    assert_eq!(flow.clone(), flow);
    let n = Note::new("text".to_string());
    assert_eq!(n.content, "text");
    assert_eq!(n.id.len(), 36);
    let folder = Folder::new("Essays".to_string());
    assert_eq!(folder.name, "Essays");
    assert!(folder.expanded);
}

#[test]
fn a_project_lists_a_composition_once() {
    let mut p = Project::with("p".to_string(), "Book".to_string(), at(1));
    p.add_composition_at("a".to_string(), at(2));
    p.add_composition_at("b".to_string(), at(3));
    p.add_composition_at("a".to_string(), at(4));
    assert_eq!(p.composition_ids, ids(&["a", "b"]));
    assert_eq!(p.updated_at, at(3));
    assert_eq!(p.created_at, at(1));
    assert_eq!(p.description, "");
}

#[test]
fn removing_keeps_the_order_of_the_others() {
    let mut p = Project::with("p".to_string(), "Book".to_string(), at(1));
    p.reorder_compositions_at(ids(&["a", "b", "c", "b"]), at(2));
    p.remove_composition_at("b", at(3));
    assert_eq!(p.composition_ids, ids(&["a", "c"]));
    assert_eq!(p.updated_at, at(3));
    p.remove_composition_at("zzz", at(4));
    assert_eq!(p.composition_ids, ids(&["a", "c"]));
    assert_eq!(p.updated_at, at(4));
}

#[test]
fn moving_swaps_or_sends_to_the_end() {
    let mut p = Project::with("p".to_string(), "Book".to_string(), at(1));
    p.reorder_compositions_at(ids(&["a", "b", "c", "d"]), at(2));
    assert_eq!(p.move_composition_at(0, 1, at(3)), Some(1));
    assert_eq!(p.composition_ids, ids(&["b", "a", "c", "d"]));
    assert_eq!(p.move_composition_at(3, 0, at(4)), Some(0));
    assert_eq!(p.composition_ids, ids(&["d", "a", "c", "b"]));
    assert_eq!(p.move_composition_at(1, 4, at(5)), Some(3));
    assert_eq!(p.composition_ids, ids(&["d", "c", "b", "a"]));
    assert_eq!(p.updated_at, at(5));
    assert_eq!(p.move_composition_at(2, 2, at(6)), None);
    assert_eq!(p.move_composition_at(4, 0, at(6)), None);
    assert_eq!(p.move_composition_at(0, 5, at(6)), None);
    assert_eq!(p.composition_ids, ids(&["d", "c", "b", "a"]));
    assert_eq!(p.updated_at, at(5));
}

#[test]
fn the_clock_variants_of_a_project() {
    let mut p = Project::new("Book".to_string());
    assert_eq!(p.title, "Book");
    assert_eq!(p.id.len(), 36);
    assert_eq!(p.created_at, p.updated_at);
    p.add_composition("a".to_string());
    p.add_composition("b".to_string());
    p.remove_composition("a");
    assert_eq!(p.composition_ids, ids(&["b"]));
    p.reorder_compositions(ids(&["x", "y"]));
    assert_eq!(p.composition_ids, ids(&["x", "y"]));
    assert!(p.updated_at.is_at_or_after(&p.created_at));
    assert_eq!(p.clone(), p);
}

#[test]
fn durations_are_written_as_hours_and_minutes() {
    assert_eq!(format_duration(0), "0m");
    assert_eq!(format_duration(59), "0m");
    assert_eq!(format_duration(60), "1m");
    assert_eq!(format_duration(3599), "59m");
    assert_eq!(format_duration(3600), "1h 0m");
    assert_eq!(format_duration(3 * 3600 + 25 * 60 + 59), "3h 25m");
}

fn flow(id: &str, text: &str, minutes: u32, seconds: u64, secs: i64) -> Flow {
    let mut f = Flow::with(id.to_string(), minutes, at(secs));
    f.content = text.to_string();
    f.actual_duration_seconds = seconds;
    f
}

#[test]
fn the_flow_document_adds_up_words_and_seconds() {
    let flows = vec![
        flow("1", "one two three", 5, 300, 1_431_648_000),
        flow("2", "", 10, 45, 1_431_648_000),
        flow("3", "four  five", 15, 900, 1_431_648_000),
    ];
    assert!(FlowDocument::totals_fit(&flows));
    let doc = FlowDocument::new(flows);
    assert_eq!(doc.flows.len(), 3);
    assert_eq!(doc.total_word_count, 5);
    assert_eq!(doc.total_time_seconds, 1245);
    let empty = FlowDocument::new(Vec::new());
    assert_eq!(empty.total_word_count, 0);
    assert_eq!(empty.total_time_seconds, 0);
}

#[test]
fn totals_that_do_not_fit_are_told_apart() {
    let flows = vec![flow("1", "a", 5, u64::MAX, 0), flow("2", "b", 5, 1, 0)];
    assert!(!FlowDocument::totals_fit(&flows));
    let fine = vec![flow("1", "a", 5, u64::MAX - 1, 0), flow("2", "b", 5, 1, 0)];
    assert!(FlowDocument::totals_fit(&fine));
}

#[test]
fn the_flow_document_in_its_readable_form() {
    let doc = FlowDocument::new(vec![
        flow("1", "one two three", 5, 3600, 1_431_648_000),
        flow("2", "four", 10, 125, 1_431_648_000 + 86_400),
    ]);
    assert_eq!(
        doc.to_markdown(),
        "# Flow Journal\n\n*Total sessions: 2 | Total words: 4 | Total time: 1h 2m*\n\n---\n\n\
## May 15, 2015 at 00:00\n\n*5 minutes | 3 words*\n\none two three\n\n---\n\n\
## May 16, 2015 at 00:00\n\n*10 minutes | 1 words*\n\nfour\n\n---\n\n"
    );
    assert_eq!(
        FlowDocument::new(Vec::new()).to_markdown(),
        "# Flow Journal\n\n*Total sessions: 0 | Total words: 0 | Total time: 0m*\n\n---\n\n"
    );
    assert_eq!(
        journal_entry(&flow("1", "x y", 20, 0, 1_431_648_000)),
        "## May 15, 2015 at 00:00\n\n*20 minutes | 2 words*\n\nx y\n\n---\n\n"
    );
}

#[test]
fn a_flow_counts_its_words() {
    let f = flow("1", " a  b\nc ", 5, 0, 0);
    assert_eq!(f.word_count(), 3);
    let fresh = Flow::new(15);
    assert_eq!(fresh.duration_minutes, 15);
    assert_eq!(fresh.actual_duration_seconds, 0);
    assert_eq!(fresh.content, "");
    assert_eq!(fresh.id.len(), 36);
}

#[test]
fn the_settings_of_a_first_start() {
    let s = Settings::default();
    assert_eq!(s.theme, "system-light");
    assert_eq!(s.font_size, 18);
    assert_eq!(s.line_height_tenths, 18);
    assert_eq!(s.microblog, MicroblogSettings::default());
    assert_eq!(s.microblog.endpoint, "");
    assert_eq!(s.microblog.api_key, "");
    assert_eq!(s.microblog.blog_id, None);
    assert_eq!(s.last_opened_composition, None);
    let mut t = s.clone();
    assert_eq!(t, s);
    t.remember_opened("abc");
    assert_eq!(t.last_opened_composition, Some("abc".to_string()));
    assert_eq!(t.theme, "system-light");
}

#[test]
fn themes_and_durations_on_offer() {
    assert_eq!(theme_id(0), Some("system-light"));
    assert_eq!(theme_id(1), Some("system-dark"));
    assert_eq!(theme_id(2), Some("newspaper"));
    assert_eq!(theme_id(3), Some("parchment"));
    assert_eq!(theme_id(4), None);
    assert_eq!(flow_duration(0), Some(5));
    assert_eq!(flow_duration(1), Some(10));
    assert_eq!(flow_duration(2), Some(15));
    assert_eq!(flow_duration(3), Some(20));
    assert_eq!(flow_duration(4), None);
}

#[test]
fn the_list_of_flows_shows_totals_and_subtitles() {
    let doc = FlowDocument::new(vec![
        flow("1", "one two three", 5, 3600, 0),
        flow("2", "four", 10, 125, 0),
    ]);
    assert_eq!(stats_line(&doc), "2 sessions • 4 total words • 1h 2m total time");
    assert_eq!(flow_subtitle(&doc.flows[0]), "5 min • 3 words");
}

#[test]
fn a_project_is_retitled_and_described() {
    let mut p = Project::with("p".to_string(), "Book".to_string(), at(1));
    p.retitle_at("Novel".to_string(), at(2));
    assert_eq!(p.title, "Novel");
    assert_eq!(p.updated_at, at(2));
    p.describe_at("About things".to_string(), at(3));
    assert_eq!(p.description, "About things");
    assert_eq!(p.updated_at, at(3));
    assert_eq!(p.created_at, at(1));
    assert_eq!(p.id, "p");
}

#[test]
fn notes_come_and_go_through_their_composition() {
    let mut c = Composition::with("id".to_string(), "t".to_string(), at(0));
    c.add_note_with(Note::with("n1".to_string(), "first".to_string(), at(1)));
    c.add_note_with(Note::with("n2".to_string(), "second".to_string(), at(2)));
    c.add_note("third".to_string());
    assert_eq!(c.notes.len(), 3);
    assert_eq!(c.notes[0].content, "third");
    assert_eq!(c.notes[0].id.len(), 36);
    assert_eq!(c.notes[1].id, "n2");
    assert_eq!(c.notes[2].id, "n1");
    c.remove_note("n2");
    assert_eq!(c.notes.len(), 2);
    assert_eq!(c.notes[0].content, "third");
    assert_eq!(c.notes[1].id, "n1");
    c.remove_note("nobody");
    assert_eq!(c.notes.len(), 2);
    assert_eq!(c.title, "t");
    assert_eq!(c.updated_at, at(0));
}
