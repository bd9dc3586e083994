use abbey::autosave::AutosaveScheduler;
use abbey::clock::Timestamp;
use abbey::models::{Composition, Folder, Note};
use abbey::registry::{CompositionRegistry, Edit};

fn at(secs: i64) -> Timestamp {
    Timestamp { secs, nanos: 0 }
}

fn doc(id: &str, title: &str, secs: i64) -> Composition {
    Composition::with(id.to_string(), title.to_string(), at(secs))
}

fn entry<'a>(registry: &'a CompositionRegistry, id: &str) -> &'a Composition {
    registry
        .compositions()
        .iter()
        .find(|c| c.id == id)
        .expect("the collection holds the composition")
}

fn two_documents() -> CompositionRegistry {
    CompositionRegistry::new(vec![doc("a", "First", 10), doc("b", "Second", 20)], Vec::new())
}

#[test]
fn every_edit_is_in_the_collection_at_once() {
    let mut registry = two_documents();
    assert!(registry.open("a"));
    let edits = vec![
        Edit::Content("H".to_string()),
        Edit::Content("He".to_string()),
        Edit::Title("Greeting".to_string()),
        Edit::Notes(vec![Note::with("n1".to_string(), "remember".to_string(), at(31))]),
        Edit::Content("Hello world".to_string()),
    ];
    let mut now = 30;
    for edit in edits {
        now += 1;
        assert!(registry.mutate_active_at(edit, at(now)));
        let active = registry.active().expect("a is open").clone();
        assert_eq!(entry(&registry, "a"), &active);
        assert_eq!(active.updated_at, at(now));
    }
    let a = entry(&registry, "a");
    assert_eq!(a.title, "Greeting");
    assert_eq!(a.content, "Hello world");
    assert_eq!(a.word_count, 2);
    assert_eq!(a.notes.len(), 1);
    assert_eq!(a.created_at, at(10));
    assert_eq!(entry(&registry, "b"), &doc("b", "Second", 20));
    assert_eq!(registry.compositions().len(), 2);
}

#[test]
fn the_modification_time_never_moves_back() {
    let mut registry = two_documents();
    registry.open("b");
    registry.mutate_active_at(Edit::Title("later".to_string()), at(50));
    registry.mutate_active_at(Edit::Title("clock went back".to_string()), at(40));
    let b = entry(&registry, "b");
    assert_eq!(b.title, "clock went back");
    assert_eq!(b.updated_at, at(50));
    registry.mutate_active_at(
        Edit::Title("same second".to_string()),
        Timestamp { secs: 50, nanos: 7 },
    );
    assert_eq!(entry(&registry, "b").updated_at, Timestamp { secs: 50, nanos: 7 });
}

#[test]
fn switching_documents_loses_no_edit() {
    let mut registry = two_documents();
    registry.open("a");
    registry.mutate_active_at(Edit::Content("draft of a".to_string()), at(100));
    assert!(registry.open("b"));
    assert_eq!(registry.active().expect("b is open").id, "b");
    assert_eq!(entry(&registry, "a").content, "draft of a");
    registry.mutate_active_at(Edit::Content("draft of b".to_string()), at(101));
    assert!(registry.open("a"));
    assert_eq!(registry.active().expect("a is open").content, "draft of a");
    assert_eq!(entry(&registry, "b").content, "draft of b");
}

#[test]
fn opening_an_absent_identity_changes_nothing() {
    let mut registry = two_documents();
    registry.open("a");
    let before = registry.snapshot();
    assert!(!registry.contains("zzz"));
    assert!(!registry.open("zzz"));
    assert_eq!(registry.active().expect("a stays open").id, "a");
    assert_eq!(registry.snapshot(), before);
    assert!(registry.contains("a"));
}

#[test]
fn editing_with_nothing_open_changes_nothing() {
    let mut registry = two_documents();
    let before = registry.snapshot();
    assert!(!registry.mutate_active_at(Edit::Content("x".to_string()), at(1)));
    assert!(!registry.archive_active_at(at(1)));
    assert!(registry.active().is_none());
    assert_eq!(registry.snapshot(), before);
}

#[test]
fn a_new_composition_goes_to_the_head_and_is_open() {
    let mut registry = two_documents();
    registry.open("b");
    registry.mutate_active_at(Edit::Content("kept".to_string()), at(60));
    registry.insert(doc("c", "Third", 70));
    let ids: Vec<&str> = registry.compositions().iter().map(|c| c.id.as_str()).collect();
    assert_eq!(ids, vec!["c", "a", "b"]);
    assert_eq!(registry.active().expect("c is open").id, "c");
    assert_eq!(entry(&registry, "b").content, "kept");
}

#[test]
fn insert_new_creates_an_empty_titled_composition() {
    let mut registry = two_documents();
    registry.insert_new();
    let active = registry.active().expect("the new one is open").clone();
    assert_eq!(registry.compositions().len(), 3);
    assert_eq!(registry.compositions()[0], active);
    assert_eq!(active.id.len(), 36);
    assert_eq!(active.content, "");
    assert!(!active.archived);
    assert_eq!(active.word_count, 0);
    assert_eq!(active.folder_id, None);
    assert_eq!(active.created_at, active.updated_at);
    let title: Vec<char> = active.title.chars().collect();
    assert_eq!(title.len(), 16);
    assert_eq!(title[4], '-');
    assert_eq!(title[7], '-');
    assert_eq!(title[10], ' ');
    assert_eq!(title[13], ':');
}

#[test]
fn archiving_and_restoring() {
    let mut registry = two_documents();
    registry.open("a");
    assert!(registry.archive_active_at(at(200)));
    assert!(entry(&registry, "a").archived);
    assert_eq!(entry(&registry, "a").updated_at, at(200));
    assert!(registry.active().expect("a stays open").archived);
    assert!(registry.restore_at("a", at(300)));
    assert!(!entry(&registry, "a").archived);
    assert_eq!(entry(&registry, "a").updated_at, at(300));
    assert!(!registry.active().expect("a stays open").archived);
    assert!(!registry.restore_at("nobody", at(301)));
    assert_eq!(registry.compositions().len(), 2);
}

#[test]
fn moving_between_folders() {
    let mut registry = two_documents();
    registry.open("b");
    assert!(registry.move_to_folder_at("b", Some("f1".to_string()), at(400)));
    assert_eq!(entry(&registry, "b").folder_id, Some("f1".to_string()));
    assert_eq!(registry.active().expect("b").folder_id, Some("f1".to_string()));
    assert_eq!(entry(&registry, "b").updated_at, at(400));
    assert!(registry.move_to_folder_at("a", Some("f1".to_string()), at(401)));
    assert_eq!(registry.active().expect("b").id, "b");
    assert!(registry.move_to_folder_at("b", None, at(402)));
    assert_eq!(entry(&registry, "b").folder_id, None);
    assert!(!registry.move_to_folder_at("nobody", None, at(403)));
}

#[test]
fn deleting_a_folder_keeps_its_compositions() {
    let folders = vec![
        Folder::with("f1".to_string(), "Essays".to_string(), at(1)),
        Folder::with("f2".to_string(), "Stories".to_string(), at(2)),
    ];
    let mut a = doc("a", "First", 10);
    a.folder_id = Some("f1".to_string());
    let mut b = doc("b", "Second", 20);
    b.folder_id = Some("f2".to_string());
    let mut c = doc("c", "Third", 30);
    c.folder_id = Some("f1".to_string());
    c.archived = true;
    let d = doc("d", "Fourth", 40);
    let mut registry =
        CompositionRegistry::new(vec![a.clone(), b.clone(), c.clone(), d.clone()], folders);
    registry.open("a");
    registry.delete_folder("f1");
    a.folder_id = None;
    c.folder_id = None;
    assert_eq!(registry.snapshot(), vec![a.clone(), b, c, d]);
    assert!(!registry.compositions()[0].archived);
    assert!(registry.compositions()[2].archived);
    assert_eq!(registry.active(), Some(&a));
    let names: Vec<&str> = registry.folders().iter().map(|f| f.name.as_str()).collect();
    assert_eq!(names, vec!["Stories"]);
    registry.delete_folder("f1");
    assert_eq!(registry.folders().len(), 1);
}

#[test]
fn folders_are_created_toggled_and_renamed() {
    let mut registry = two_documents();
    registry.add_folder(Folder::with("f1".to_string(), "Essays".to_string(), at(1)));
    registry.create_folder("Stories".to_string());
    assert_eq!(registry.folders().len(), 2);
    assert_eq!(registry.folders()[1].name, "Stories");
    assert!(registry.folders()[1].expanded);
    assert_eq!(registry.folders()[1].id.len(), 36);
    assert!(registry.toggle_folder("f1"));
    assert!(!registry.folders()[0].expanded);
    assert!(registry.toggle_folder("f1"));
    assert!(registry.folders()[0].expanded);
    assert!(registry.rename_folder("f1", "Articles".to_string()));
    assert_eq!(registry.folders()[0].name, "Articles");
    assert_eq!(registry.folders()[0].created_at, at(1));
    assert!(!registry.toggle_folder("nobody"));
    assert!(!registry.rename_folder("nobody", "x".to_string()));
}

#[test]
fn the_clock_variants_agree_with_the_timed_ones() {
    let mut registry = two_documents();
    registry.open("a");
    assert!(registry.mutate_active(Edit::Content("now".to_string())));
    assert_eq!(entry(&registry, "a").content, "now");
    assert!(entry(&registry, "a").updated_at.secs > 1_000_000_000);
    assert_eq!(registry.active(), Some(entry(&registry, "a")));
    assert!(registry.archive_active());
    assert!(entry(&registry, "a").archived);
    assert!(registry.restore("a"));
    assert!(!entry(&registry, "a").archived);
    assert!(registry.move_to_folder("a", Some("f".to_string())));
    assert_eq!(registry.active().expect("a").folder_id, Some("f".to_string()));
}

#[test]
fn typing_hello_world_reaches_the_store_after_the_quiet_period() {
    let mut registry = CompositionRegistry::new(Vec::new(), Vec::new());
    let mut scheduler = AutosaveScheduler::new();
    let mut stored: Vec<Vec<Composition>> = Vec::new();
    registry.insert_new();
    let mut pending = Vec::new();
    let mut typed = String::new();
    for c in "Hello world".chars() {
        typed.push(c);
        assert!(registry.mutate_active(Edit::Content(typed.clone())));
        pending.push(scheduler.notify_changed().arm);
    }
    for token in pending {
        if scheduler.timer_fired(token) {
            stored.push(registry.snapshot());
        }
    }
    assert_eq!(stored.len(), 1);
    assert_eq!(stored[0].len(), 1);
    assert_eq!(stored[0][0].content, "Hello world");
    assert_eq!(stored[0][0].word_count, 2);
    assert!(!scheduler.is_armed());
}

#[test]
fn appending_puts_a_rule_between_old_and_new_text() {
    let mut registry = two_documents();
    registry.open("a");
    assert!(registry.append_to_composition_at("a", "first part", at(500)));
    assert_eq!(entry(&registry, "a").content, "first part");
    assert_eq!(entry(&registry, "a").word_count, 2);
    assert!(registry.append_to_composition_at("a", "second part here", at(501)));
    assert_eq!(entry(&registry, "a").content, "first part\n\n---\n\nsecond part here");
    assert_eq!(entry(&registry, "a").word_count, 6);
    assert_eq!(entry(&registry, "a").updated_at, at(501));
    assert_eq!(registry.active(), Some(entry(&registry, "a")));
    assert!(registry.append_to_composition_at("b", "other", at(502)));
    assert_eq!(registry.active().expect("a stays open").id, "a");
    assert_eq!(entry(&registry, "b").content, "other");
    assert!(!registry.append_to_composition_at("nobody", "x", at(503)));
    assert!(registry.append_to_composition("b", "more"));
    assert_eq!(entry(&registry, "b").content, "other\n\n---\n\nmore");
}

#[test]
fn a_composition_made_from_text_goes_to_the_end() {
    let mut registry = two_documents();
    registry.create_composition_from_text("from a flow");
    assert_eq!(registry.compositions().len(), 3);
    let last = registry.compositions()[2].clone();
    assert_eq!(last.content, "from a flow");
    assert_eq!(last.id.len(), 36);
    assert_eq!(registry.active(), Some(&last));
    registry.adopt(doc("z", "Last", 5));
    assert_eq!(registry.compositions()[3].id, "z");
    assert_eq!(registry.active().expect("z is open").id, "z");
}

#[test]
fn the_lists_show_what_belongs_in_them() {
    let mut a = doc("a", "First", 10);
    a.folder_id = Some("f1".to_string());
    let mut b = doc("b", "Second", 20);
    b.archived = true;
    let c = doc("c", "Third", 30);
    let mut d = doc("d", "Fourth", 40);
    d.folder_id = Some("f1".to_string());
    d.archived = true;
    let mut e = doc("e", "Fifth", 50);
    e.folder_id = Some("f1".to_string());
    let registry = CompositionRegistry::new(
        vec![a.clone(), b.clone(), c.clone(), d.clone(), e.clone()],
        Vec::new(),
    );
    assert_eq!(registry.listed(Some("f1")), vec![a.clone(), e.clone()]);
    assert_eq!(registry.listed(None), vec![c.clone()]);
    assert_eq!(registry.listed(Some("f2")), Vec::new());
    assert_eq!(registry.unarchived(), vec![a.clone(), c.clone(), e.clone()]);
    assert_eq!(registry.archived(), vec![b, d]);
}
