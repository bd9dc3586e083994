//! The pure part of the persistence layer: where the snapshots and exports
//! live, what a load makes of what it found, how a whole collection is
//! changed before it is written back, and the readable documents that are
//! written beside the snapshots.

use crate::clock::{stamp, stamp_text};
use crate::models::{
    views, Composition, CompositionView, Duplicate, Flow, FlowView, NoteView, Project,
    ProjectView,
};
use crate::registry_model::{entry_of, find_id, has_entry};
use crate::settings::Settings;
use crate::text::{chars_of, decimal, push_decimal, string_of, token_count, trim_from, trimmed};
use vstd::prelude::*;
use vstd::string::StringExecFns;

verus! {

/// The directory of the application below the user's documents.
pub const APP_DIR: &'static str = "Abbey";

/// The directories of the exports, below the application's directory.
pub const COMPOSITIONS_DIR: &'static str = "compositions";

pub const FLOWS_DIR: &'static str = "flows";

pub const PROJECTS_DIR: &'static str = "projects";

/// The snapshots, in the application's directory.
pub const COMPOSITIONS_FILE: &'static str = "compositions.json";

pub const FOLDERS_FILE: &'static str = "folders.json";

pub const FLOWS_FILE: &'static str = "flows.json";

pub const PROJECTS_FILE: &'static str = "projects.json";

pub const SETTINGS_FILE: &'static str = "settings.json";

/// The cumulative journal, in the directory of the flows.
pub const FLOW_JOURNAL_FILE: &'static str = "Flow Journal.md";

/// Why the store failed.
#[derive(Clone, Copy, PartialEq, Eq, Structural, Debug)]
pub enum StoreError {
    /// The user has no home or no documents directory.
    NotFound,
    /// A snapshot is there and cannot be read as what it should be.
    Decode,
    /// Reading or writing failed.
    Io,
}

impl StoreError {
    /// The failure stops the start of the application: only a missing home
    /// or documents directory does; a snapshot that cannot be read or
    /// written never does.
    pub fn is_fatal(&self) -> (b: bool)
        ensures
            b == (*self == StoreError::NotFound),
    {
        match self {
            StoreError::NotFound => true,
            StoreError::Decode => false,
            StoreError::Io => false,
        }
    }

    /// The failure in words.
    pub fn message(&self) -> (r: String)
        ensures
            r@ == match *self {
                StoreError::NotFound => "Could not find the documents directory"@,
                StoreError::Decode => "The stored data is malformed"@,
                StoreError::Io => "Reading or writing failed"@,
            },
    {
        match self {
            StoreError::NotFound => "Could not find the documents directory".to_owned(),
            StoreError::Decode => "The stored data is malformed".to_owned(),
            StoreError::Io => "Reading or writing failed".to_owned(),
        }
    }
}

/// The user's documents directory as it was found, or the failure that
/// none was found.
pub fn located(documents_dir: Option<String>) -> (r: Result<String, StoreError>)
    ensures
        r == match documents_dir {
            Some(dir) => Ok::<String, StoreError>(dir),
            None => Err::<String, StoreError>(StoreError::NotFound),
        },
{
    match documents_dir {
        Some(dir) => Ok(dir),
        None => Err(StoreError::NotFound),
    }
}

/// What reading one snapshot came to.
#[derive(Debug)]
pub enum Snapshot<T> {
    /// No snapshot was ever written.
    Missing,
    /// The snapshot is there and could not be read.
    Unreadable,
    /// The snapshot was read and is malformed.
    Malformed,
    /// The snapshot was read and holds this.
    Present(T),
}

/// What a load makes of a collection's snapshot: a missing snapshot is an
/// empty collection and no error; a malformed one is a decode error; one
/// that cannot be read is an I/O error.
pub fn collection_of<T>(snapshot: Snapshot<Vec<T>>) -> (r: Result<Vec<T>, StoreError>)
    ensures
        match snapshot {
            Snapshot::Missing => r matches Ok(v) && v@.len() == 0,
            Snapshot::Unreadable => r == Err::<Vec<T>, StoreError>(StoreError::Io),
            Snapshot::Malformed => r == Err::<Vec<T>, StoreError>(StoreError::Decode),
            Snapshot::Present(v) => r == Ok::<Vec<T>, StoreError>(v),
        },
{
    match snapshot {
        Snapshot::Missing => Ok(Vec::new()),
        Snapshot::Unreadable => Err(StoreError::Io),
        Snapshot::Malformed => Err(StoreError::Decode),
        Snapshot::Present(v) => Ok(v),
    }
}

/// What a load makes of the settings' snapshot: a missing snapshot gives the
/// settings of a first start.
pub fn settings_of(snapshot: Snapshot<Settings>) -> (r: Result<Settings, StoreError>)
    ensures
        match snapshot {
            Snapshot::Missing => r matches Ok(s) && s@ == crate::settings::SettingsView::initial(),
            Snapshot::Unreadable => r == Err::<Settings, StoreError>(StoreError::Io),
            Snapshot::Malformed => r == Err::<Settings, StoreError>(StoreError::Decode),
            Snapshot::Present(s) => r == Ok::<Settings, StoreError>(s),
        },
{
    match snapshot {
        Snapshot::Missing => Ok(Settings::default()),
        Snapshot::Unreadable => Err(StoreError::Io),
        Snapshot::Malformed => Err(StoreError::Decode),
        Snapshot::Present(s) => Ok(s),
    }
}

/// The collection to start with after a load: what was loaded, or nothing
/// where the load failed. A failed load never stops the start.
pub fn start_with<T>(loaded: Result<Vec<T>, StoreError>) -> (r: Vec<T>)
    ensures
        match loaded {
            Ok(v) => r == v,
            Err(_) => r@.len() == 0,
        },
{
    match loaded {
        Ok(v) => v,
        Err(_) => Vec::new(),
    }
}

/// `c` may not stand in a file name.
pub open spec fn is_forbidden(c: char) -> bool {
    c == '/' || c == '\\' || c == ':' || c == '*' || c == '?' || c == '"' || c == '<' || c == '>'
        || c == '|'
}

/// The name with an underscore for every character that may not stand in a
/// file name, and without the white space at its two ends.
pub open spec fn file_name_of(name: Seq<char>) -> Seq<char> {
    trimmed(Seq::new(name.len(), |i: int| if is_forbidden(name[i]) {
        '_'
    } else {
        name[i]
    }))
}

/// The readable form of a composition: its title as a heading, its text,
/// and its notes as a list where it has any.
pub open spec fn composition_document(c: CompositionView) -> Seq<char> {
    "# "@ + c.title + "\n\n"@ + c.content + if c.notes.len() > 0 {
        "\n\n---\n\n## Notes\n\n"@ + note_lines(c.notes, c.notes.len())
    } else {
        Seq::empty()
    }
}

/// The first `n` notes, one list item a line.
pub open spec fn note_lines(notes: Seq<NoteView>, n: nat) -> Seq<char>
    decreases n,
{
    if n == 0 || n > notes.len() {
        Seq::empty()
    } else {
        note_lines(notes, (n - 1) as nat) + ("- "@ + notes[n - 1].content + "\n"@)
    }
}

/// The pattern of the date in a journal record.
pub open spec fn record_pattern() -> Seq<char> {
    "%Y-%m-%d %H:%M"@
}

/// The record that one flow adds to the cumulative journal.
pub open spec fn journal_record(f: FlowView) -> Seq<char> {
    "\n\n---\n\n## "@ + stamp(f.created_at, record_pattern()) + " ("@ + decimal(
        f.duration_minutes as nat,
    ) + " min, "@ + decimal(token_count(f.content)) + " words)\n\n"@ + f.content + "\n"@
}

/// The cumulative journal before its first record.
pub open spec fn journal_preamble() -> Seq<char> {
    "# Flow Journal\n\nA collection of free-writing sessions.\n"@
}

/// The title over a composition's part of a project: its own, or, in a
/// preview, a stand-in where it has none.
pub open spec fn part_title(c: CompositionView, preview: bool) -> Seq<char> {
    if preview && c.title.len() == 0 {
        "Untitled"@
    } else {
        c.title
    }
}

/// The part of a project's export that stands for the composition `id`:
/// its title as a heading, its text and a rule; nothing where the
/// collection holds no such composition.
pub open spec fn project_part(compositions: Seq<CompositionView>, id: Seq<char>, preview: bool) -> Seq<char> {
    if has_entry(compositions, id) {
        let c = compositions[entry_of(compositions, id)];
        "## "@ + part_title(c, preview) + "\n\n"@ + c.content + "\n\n---\n\n"@
    } else {
        Seq::empty()
    }
}

/// The parts of the first `n` compositions of a project, in its order.
pub open spec fn project_parts(ids: Seq<Seq<char>>, compositions: Seq<CompositionView>, n: nat, preview: bool) -> Seq<char>
    decreases n,
{
    if n == 0 || n > ids.len() {
        Seq::empty()
    } else {
        project_parts(ids, compositions, (n - 1) as nat, preview) + project_part(
            compositions,
            ids[n - 1],
            preview,
        )
    }
}

/// The readable form of a project: its title, its description where it has
/// one, a rule, and then its compositions in publication order.
pub open spec fn project_document(p: ProjectView, compositions: Seq<CompositionView>, preview: bool) -> Seq<char> {
    "# "@ + p.title + "\n\n"@ + (if p.description.len() > 0 {
        "*"@ + p.description + "*\n\n"@
    } else {
        Seq::empty()
    }) + "---\n\n"@ + project_parts(
        p.composition_ids,
        compositions,
        p.composition_ids.len(),
        preview,
    )
}

/// The first position at or after `from` of a project with the identity
/// `id`, or the length of `list`.
pub open spec fn find_project(list: Seq<ProjectView>, id: Seq<char>, from: int) -> int
    decreases list.len() - from,
{
    if from < 0 || from >= list.len() {
        list.len() as int
    } else if list[from].id == id {
        from
    } else {
        find_project(list, id, from + 1)
    }
}

/// The collection with `c` saved into it: over the entry of its identity
/// where there is one, at the head otherwise.
pub open spec fn with_composition(list: Seq<CompositionView>, c: CompositionView) -> Seq<CompositionView> {
    if has_entry(list, c.id) {
        list.update(entry_of(list, c.id), c)
    } else {
        seq![c] + list
    }
}

/// The projects with `p` saved into them: over the first project of its
/// identity where there is one, at the head otherwise.
pub open spec fn with_project(list: Seq<ProjectView>, p: ProjectView) -> Seq<ProjectView> {
    if find_project(list, p.id, 0) < list.len() {
        list.update(find_project(list, p.id, 0), p)
    } else {
        seq![p] + list
    }
}

/// Saves `composition` into the whole collection `list`, which is then
/// written back as one.
pub fn upsert_composition(list: &mut Vec<Composition>, composition: &Composition)
    ensures
        views(final(list)@) == with_composition(views(old(list)@), composition@),
{
    let mut i: usize = 0;
    while i < list.len() && list[i].id != composition.id
        invariant
            i <= list.len(),
            find_id(views(list@), composition@.id, i as int) == find_id(
                views(list@),
                composition@.id,
                0,
            ),
        decreases list.len() - i,
    {
        i += 1;
    }
    if i < list.len() {
        list[i] = composition.duplicate();
        assert(views(list@) =~= views(old(list)@).update(i as int, composition@));
    } else {
        list.insert(0, composition.duplicate());
        assert(views(list@) =~= seq![composition@] + views(old(list)@));
    }
}

/// Saves `project` into the whole collection `list`.
pub fn upsert_project(list: &mut Vec<Project>, project: &Project)
    ensures
        views(final(list)@) == with_project(views(old(list)@), project@),
{
    let mut i: usize = 0;
    while i < list.len() && list[i].id != project.id
        invariant
            i <= list.len(),
            find_project(views(list@), project@.id, i as int) == find_project(
                views(list@),
                project@.id,
                0,
            ),
        decreases list.len() - i,
    {
        i += 1;
    }
    if i < list.len() {
        list[i] = project.duplicate();
        assert(views(list@) =~= views(old(list)@).update(i as int, project@));
    } else {
        list.insert(0, project.duplicate());
        assert(views(list@) =~= seq![project@] + views(old(list)@));
    }
}

/// Puts `flow` at the head of the whole collection of flows.
pub fn prepend_flow(flows: &mut Vec<Flow>, flow: &Flow)
    ensures
        views(final(flows)@) == seq![flow@] + views(old(flows)@),
{
    flows.insert(0, flow.duplicate());
    assert(views(flows@) =~= seq![flow@] + views(old(flows)@));
}

/// The readable form of a composition.
pub fn composition_markdown(composition: &Composition) -> (r: String)
    ensures
        r@ == composition_document(composition@),
{
    let mut out = String::new();
    out.append("# ");
    out.append(composition.title.as_str());
    out.append("\n\n");
    out.append(composition.content.as_str());
    if composition.notes.len() > 0 {
        let mut list = String::new();
        list.append("\n\n---\n\n## Notes\n\n");
        let ghost head = list@;
        let mut i: usize = 0;
        while i < composition.notes.len()
            invariant
                i <= composition.notes.len(),
                list@ == head + note_lines(composition@.notes, i as nat),
            decreases composition.notes.len() - i,
        {
            let mut line = String::new();
            line.append("- ");
            line.append(composition.notes[i].content.as_str());
            line.append("\n");
            list.append(line.as_str());
            assert(list@ =~= head + note_lines(composition@.notes, (i + 1) as nat));
            i += 1;
        }
        out.append(list.as_str());
    } else {
        assert(out@ + Seq::<char>::empty() =~= out@);
    }
    out
}

/// The record that `flow` adds to the cumulative journal.
pub fn flow_journal_entry(flow: &Flow) -> (r: String)
    ensures
        r@ == journal_record(flow@),
{
    let mut out = String::new();
    out.append("\n\n---\n\n## ");
    let date = stamp_text(flow.created_at, "%Y-%m-%d %H:%M");
    out.append(date.as_str());
    out.append(" (");
    push_decimal(&mut out, flow.duration_minutes as u64);
    out.append(" min, ");
    push_decimal(&mut out, flow.word_count() as u64);
    out.append(" words)\n\n");
    out.append(flow.content.as_str());
    out.append("\n");
    out
}

/// The cumulative journal after `flow` is appended: what it held, or its
/// preamble where it did not exist, and then the record of `flow`.
pub fn journal_with(existing: Option<String>, flow: &Flow) -> (r: String)
    ensures
        r@ == (match existing {
            Some(text) => text@,
            None => journal_preamble(),
        }) + journal_record(flow@),
{
    let mut out = match existing {
        Some(text) => text,
        None => "# Flow Journal\n\nA collection of free-writing sessions.\n".to_owned(),
    };
    let entry = flow_journal_entry(flow);
    out.append(entry.as_str());
    out
}

fn write_project(project: &Project, compositions: &Vec<Composition>, preview: bool) -> (r: String)
    ensures
        r@ == project_document(project@, views(compositions@), preview),
{
    let mut out = String::new();
    out.append("# ");
    out.append(project.title.as_str());
    out.append("\n\n");
    let mut about = String::new();
    if !project.description.as_str().is_empty() {
        about.append("*");
        about.append(project.description.as_str());
        about.append("*\n\n");
    }
    out.append(about.as_str());
    out.append("---\n\n");
    let ghost head = out@;
    let ghost ids = project@.composition_ids;
    let ghost all = views(compositions@);
    let mut i: usize = 0;
    while i < project.composition_ids.len()
        invariant
            i <= project.composition_ids.len(),
            ids == project@.composition_ids,
            all == views(compositions@),
            out@ == head + project_parts(ids, all, i as nat, preview),
        decreases project.composition_ids.len() - i,
    {
        let mut k: usize = 0;
        while k < compositions.len() && compositions[k].id != project.composition_ids[i]
            invariant
                k <= compositions.len(),
                all == views(compositions@),
                ids == project@.composition_ids,
                i < project.composition_ids.len(),
                find_id(all, ids[i as int], k as int) == find_id(all, ids[i as int], 0),
            decreases compositions.len() - k,
        {
            k += 1;
        }
        let mut part = String::new();
        if k < compositions.len() {
            part.append("## ");
            if preview && compositions[k].title.as_str().is_empty() {
                part.append("Untitled");
            } else {
                part.append(compositions[k].title.as_str());
            }
            part.append("\n\n");
            part.append(compositions[k].content.as_str());
            part.append("\n\n---\n\n");
        }
        assert(part@ == project_part(all, ids[i as int], preview));
        out.append(part.as_str());
        assert(out@ =~= head + project_parts(ids, all, (i + 1) as nat, preview));
        i += 1;
    }
    out
}

/// The readable form of a project over the collection `compositions`, as it
/// is written to disk.
pub fn project_markdown(project: &Project, compositions: &Vec<Composition>) -> (r: String)
    ensures
        r@ == project_document(project@, views(compositions@), false),
{
    write_project(project, compositions, false)
}

/// The readable form of a project as it is shown before an export: a
/// composition without a title gets a stand-in.
pub fn project_preview(project: &Project, compositions: &Vec<Composition>) -> (r: String)
    ensures
        r@ == project_document(project@, views(compositions@), true),
{
    write_project(project, compositions, true)
}

/// Where the application keeps its files.
#[derive(Debug, PartialEq, Eq)]
pub struct Storage {
    base_dir: String,
    compositions_dir: String,
    flows_dir: String,
    projects_dir: String,
}

pub struct StorageView {
    pub base_dir: Seq<char>,
    pub compositions_dir: Seq<char>,
    pub flows_dir: Seq<char>,
    pub projects_dir: Seq<char>,
}

impl View for Storage {
    type V = StorageView;

    closed spec fn view(&self) -> StorageView {
        StorageView {
            base_dir: self.base_dir@,
            compositions_dir: self.compositions_dir@,
            flows_dir: self.flows_dir@,
            projects_dir: self.projects_dir@,
        }
    }
}

impl Storage {
    /// The store over the application's directory and the three directories
    /// of its exports.
    pub fn new(base_dir: String, compositions_dir: String, flows_dir: String, projects_dir: String) -> (r: Self)
        ensures
            r@ == (StorageView {
                base_dir: base_dir@,
                compositions_dir: compositions_dir@,
                flows_dir: flows_dir@,
                projects_dir: projects_dir@,
            }),
    {
        Storage { base_dir, compositions_dir, flows_dir, projects_dir }
    }

    /// The application's directory.
    pub fn base_dir(&self) -> (r: &String)
        ensures
            r@ == self@.base_dir,
    {
        &self.base_dir
    }

    /// The directory of the readable compositions.
    pub fn compositions_dir(&self) -> (r: &String)
        ensures
            r@ == self@.compositions_dir,
    {
        &self.compositions_dir
    }

    /// The directory of the cumulative journal.
    pub fn flows_dir(&self) -> (r: &String)
        ensures
            r@ == self@.flows_dir,
    {
        &self.flows_dir
    }

    /// The directory of the projects' exports.
    pub fn projects_dir(&self) -> (r: &String)
        ensures
            r@ == self@.projects_dir,
    {
        &self.projects_dir
    }

    /// Makes a file name of `name`.
    pub fn sanitize_filename(&self, name: &str) -> (r: String)
        ensures
            r@ == file_name_of(name@),
    {
        let v = chars_of(name);
        let mut mapped: Vec<char> = Vec::new();
        let mut i: usize = 0;
        while i < v.len()
            invariant
                i <= v.len(),
                mapped.len() == i,
                forall|k: int|
                    0 <= k < i ==> mapped@[k] == if is_forbidden(v@[k]) {
                        '_'
                    } else {
                        v@[k]
                    },
            decreases v.len() - i,
        {
            let c = v[i];
            if c == '/' || c == '\\' || c == ':' || c == '*' || c == '?' || c == '"' || c == '<'
                || c == '>' || c == '|' {
                mapped.push('_');
            } else {
                mapped.push(c);
            }
            i += 1;
        }
        assert(mapped@ =~= Seq::new(v@.len(), |i: int| if is_forbidden(v@[i]) {
            '_'
        } else {
            v@[i]
        }));
        let r = trim_from(&mapped, 0);
        assert(mapped@.subrange(0, mapped.len() as int) =~= mapped@);
        string_of(&r)
    }

    /// The name of the file that holds the readable form of a composition
    /// or a project with the title `title`.
    pub fn export_file_name(&self, title: &str) -> (r: String)
        ensures
            r@ == file_name_of(title@) + ".md"@,
    {
        let mut out = self.sanitize_filename(title);
        out.append(".md");
        out
    }

    /// The name of the directory that a project gets once it holds a
    /// composition; `None` while it holds none.
    pub fn project_folder(&self, project: &Project) -> (r: Option<String>)
        ensures
            match r {
                Some(name) => project@.composition_ids.len() > 0 && name@ == file_name_of(
                    project@.title,
                ),
                None => project@.composition_ids.len() == 0,
            },
    {
        if project.composition_ids.len() > 0 {
            Some(self.sanitize_filename(project.title.as_str()))
        } else {
            None
        }
    }
}

} // verus!
