use abbey::clock::Timestamp;
use abbey::models::{Composition, Flow, Note, Project};
use abbey::settings::Settings;
use abbey::storage::{
    located, collection_of, composition_markdown, flow_journal_entry, journal_with, prepend_flow,
    project_markdown, project_preview, settings_of, start_with, upsert_composition, upsert_project, Snapshot,
    Storage, StoreError,
};

fn at(secs: i64) -> Timestamp {
    Timestamp { secs, nanos: 0 }
}

fn store() -> Storage {
    Storage::new(
        "/docs/Abbey".to_string(),
        "/docs/Abbey/compositions".to_string(),
        "/docs/Abbey/flows".to_string(),
        "/docs/Abbey/projects".to_string(),
    )
}

fn doc(id: &str, title: &str, content: &str) -> Composition {
    let mut c = Composition::with(id.to_string(), title.to_string(), at(10));
    c.content = content.to_string();
    c
}

#[test]
fn the_store_knows_its_directories() {
    let s = store();
    assert_eq!(s.base_dir(), "/docs/Abbey");
    assert_eq!(s.compositions_dir(), "/docs/Abbey/compositions");
    assert_eq!(s.flows_dir(), "/docs/Abbey/flows");
    assert_eq!(s.projects_dir(), "/docs/Abbey/projects");
}

#[test]
fn file_names_lose_what_a_file_system_refuses() {
    let s = store();
    assert_eq!(s.sanitize_filename("a/b\\c:d*e?f\"g<h>i|j"), "a_b_c_d_e_f_g_h_i_j");
    assert_eq!(s.sanitize_filename("  My Essay  "), "My Essay");
    assert_eq!(s.sanitize_filename(" /x/ "), "_x_");
    assert_eq!(s.sanitize_filename(""), "");
    assert_eq!(s.sanitize_filename("2024-01-02 10:30"), "2024-01-02 10_30");
    assert_eq!(s.export_file_name("2024-01-02 10:30"), "2024-01-02 10_30.md");
}

#[test]
fn a_missing_snapshot_is_an_empty_collection() {
    let r: Result<Vec<Composition>, StoreError> = collection_of(Snapshot::Missing);
    assert_eq!(r, Ok(Vec::new()));
}

#[test]
fn a_malformed_snapshot_is_a_decode_error() {
    let r: Result<Vec<Composition>, StoreError> = collection_of(Snapshot::Malformed);
    assert_eq!(r, Err(StoreError::Decode));
    assert_eq!(start_with(r), Vec::new());
}

#[test]
fn an_unreadable_snapshot_is_an_io_error() {
    let r: Result<Vec<Flow>, StoreError> = collection_of(Snapshot::Unreadable);
    assert_eq!(r, Err(StoreError::Io));
    assert_eq!(settings_of(Snapshot::Unreadable), Err(StoreError::Io));
    assert_eq!(settings_of(Snapshot::Malformed), Err(StoreError::Decode));
}

#[test]
fn a_present_snapshot_is_handed_on_as_it_is() {
    let list = vec![doc("a", "A", "x"), doc("b", "B", "y")];
    let r = collection_of(Snapshot::Present(list.clone()));
    assert_eq!(r, Ok(list.clone()));
    assert_eq!(start_with(r), list);
    let mut s = Settings::default();
    s.theme = "parchment".to_string();
    assert_eq!(settings_of(Snapshot::Present(s.clone())), Ok(s));
    assert_eq!(settings_of(Snapshot::Missing), Ok(Settings::default()));
}

#[test]
fn saving_one_composition_replaces_or_prepends() {
    let mut list = vec![doc("a", "A", "x"), doc("b", "B", "y")];
    upsert_composition(&mut list, &doc("b", "B2", "z"));
    assert_eq!(list, vec![doc("a", "A", "x"), doc("b", "B2", "z")]);
    upsert_composition(&mut list, &doc("c", "C", ""));
    assert_eq!(list, vec![doc("c", "C", ""), doc("a", "A", "x"), doc("b", "B2", "z")]);
    let mut empty: Vec<Composition> = Vec::new();
    upsert_composition(&mut empty, &doc("a", "A", "x"));
    assert_eq!(empty, vec![doc("a", "A", "x")]);
}

#[test]
fn saving_one_project_replaces_or_prepends() {
    let p1 = Project::with("p1".to_string(), "One".to_string(), at(1));
    let p2 = Project::with("p2".to_string(), "Two".to_string(), at(2));
    let mut p1b = p1.clone();
    p1b.title = "Uno".to_string();
    let mut list = vec![p1.clone()];
    upsert_project(&mut list, &p2);
    assert_eq!(list, vec![p2.clone(), p1]);
    upsert_project(&mut list, &p1b);
    assert_eq!(list, vec![p2, p1b]);
}

#[test]
fn a_flow_goes_to_the_head_of_the_flows() {
    let f1 = Flow::with("1".to_string(), 5, at(1));
    let f2 = Flow::with("2".to_string(), 10, at(2));
    let mut flows = vec![f1.clone()];
    prepend_flow(&mut flows, &f2);
    assert_eq!(flows, vec![f2, f1]);
}

#[test]
fn a_composition_in_its_readable_form() {
    let mut c = doc("a", "My Essay", "Body text.");
    assert_eq!(composition_markdown(&c), "# My Essay\n\nBody text.");
    c.notes.push(Note::with("n1".to_string(), "first".to_string(), at(1)));
    c.notes.push(Note::with("n2".to_string(), "second".to_string(), at(2)));
    assert_eq!(
        composition_markdown(&c),
        "# My Essay\n\nBody text.\n\n---\n\n## Notes\n\n- first\n- second\n"
    );
}

#[test]
fn a_flow_in_the_cumulative_journal() {
    let mut f = Flow::with("1".to_string(), 5, at(1_431_648_000));
    f.content = "one two".to_string();
    f.actual_duration_seconds = 300;
    assert_eq!(
        flow_journal_entry(&f),
        "\n\n---\n\n## 2015-05-15 00:00 (5 min, 2 words)\n\none two\n"
    );
    assert_eq!(
        journal_with(None, &f),
        "# Flow Journal\n\nA collection of free-writing sessions.\n\
\n\n---\n\n## 2015-05-15 00:00 (5 min, 2 words)\n\none two\n"
    );
    assert_eq!(
        journal_with(Some("earlier".to_string()), &f),
        "earlier\n\n---\n\n## 2015-05-15 00:00 (5 min, 2 words)\n\none two\n"
    );
}

#[test]
fn a_project_in_its_readable_form() {
    let compositions = vec![doc("a", "Alpha", "aaa"), doc("b", "Beta", "bbb")];
    let mut p = Project::with("p".to_string(), "Book".to_string(), at(1));
    assert_eq!(project_markdown(&p, &compositions), "# Book\n\n---\n\n");
    p.description = "An anthology".to_string();
    p.reorder_compositions_at(
        vec!["b".to_string(), "gone".to_string(), "a".to_string()],
        at(2),
    );
    assert_eq!(
        project_markdown(&p, &compositions),
        "# Book\n\n*An anthology*\n\n---\n\n## Beta\n\nbbb\n\n---\n\n## Alpha\n\naaa\n\n---\n\n"
    );
}

#[test]
fn a_project_gets_a_directory_once_it_holds_a_composition() {
    let s = store();
    let mut p = Project::with("p".to_string(), "My: Book".to_string(), at(1));
    assert_eq!(s.project_folder(&p), None);
    p.add_composition_at("a".to_string(), at(2));
    assert_eq!(s.project_folder(&p), Some("My_ Book".to_string()));
}

#[test]
fn a_preview_gives_untitled_compositions_a_stand_in() {
    let compositions = vec![doc("a", "", "aaa"), doc("b", "Beta", "bbb")];
    let mut p = Project::with("p".to_string(), "Book".to_string(), at(1));
    p.reorder_compositions_at(vec!["a".to_string(), "b".to_string()], at(2));
    assert_eq!(
        project_preview(&p, &compositions),
        "# Book\n\n---\n\n## Untitled\n\naaa\n\n---\n\n## Beta\n\nbbb\n\n---\n\n"
    );
    assert_eq!(
        project_markdown(&p, &compositions),
        "# Book\n\n---\n\n## \n\naaa\n\n---\n\n## Beta\n\nbbb\n\n---\n\n"
    );
}

#[test]
fn a_missing_documents_directory_is_the_one_fatal_failure() {
    assert_eq!(located(None), Err(StoreError::NotFound));
    assert_eq!(located(Some("/home/u/Documents".to_string())), Ok("/home/u/Documents".to_string()));
    assert!(StoreError::NotFound.is_fatal());
    assert!(!StoreError::Decode.is_fatal());
    assert!(!StoreError::Io.is_fatal());
    assert_eq!(StoreError::NotFound.message(), "Could not find the documents directory");
    assert_eq!(StoreError::Decode.message(), "The stored data is malformed");
    assert_eq!(StoreError::Io.message(), "Reading or writing failed");
}
