//! The records that the tool keeps: compositions and their notes, folders,
//! projects, flows and settings, each with the mathematical value that the
//! contracts of this crate speak of.

use crate::clock::{random_id, stamp, stamp_text, system_now, Timestamp};
use crate::text::{chars_of, count_tokens, token_count};
use vstd::prelude::*;

verus! {

/// A record that can be copied value for value.
pub trait Duplicate: View + Sized {
    fn duplicate(&self) -> (r: Self)
        ensures
            r@ == self@,
    ;
}

/// The values of the records of `v`, in order.
pub open spec fn views<T: View>(v: Seq<T>) -> Seq<T::V> {
    Seq::new(v.len(), |i: int| v[i]@)
}

/// Copies a list of records value for value.
pub fn duplicate_all<T: Duplicate>(v: &Vec<T>) -> (r: Vec<T>)
    ensures
        views(r@) == views(v@),
        r.len() == v.len(),
{
    let mut r: Vec<T> = Vec::new();
    let mut i: usize = 0;
    while i < v.len()
        invariant
            i <= v.len(),
            r.len() == i,
            forall|k: int| 0 <= k < i ==> r@[k]@ == v@[k]@,
        decreases v.len() - i,
    {
        r.push(v[i].duplicate());
        i += 1;
    }
    assert(views(r@) =~= views(v@));
    r
}

impl Duplicate for String {
    fn duplicate(&self) -> (r: Self) {
        self.clone()
    }
}

/// The number of white-space-delimited words of `text`.
pub fn count_words(text: &str) -> (n: usize)
    ensures
        n == token_count(text@),
{
    let v = chars_of(text);
    count_tokens(&v)
}

/// A note attached to a composition.
#[derive(Debug, PartialEq, Eq)]
pub struct Note {
    pub id: String,
    pub content: String,
    pub created_at: Timestamp,
}

pub struct NoteView {
    pub id: Seq<char>,
    pub content: Seq<char>,
    pub created_at: Timestamp,
}

impl View for Note {
    type V = NoteView;

    open spec fn view(&self) -> NoteView {
        NoteView { id: self.id@, content: self.content@, created_at: self.created_at }
    }
}

impl Duplicate for Note {
    fn duplicate(&self) -> (r: Self) {
        Note { id: self.id.clone(), content: self.content.clone(), created_at: self.created_at }
    }
}

impl Clone for Note {
    fn clone(&self) -> (r: Self)
        ensures
            r@ == self@,
    {
        self.duplicate()
    }
}

impl Note {
    /// The note with the given identity, text and creation time.
    pub fn with(id: String, content: String, now: Timestamp) -> (r: Self)
        ensures
            r@ == (NoteView { id: id@, content: content@, created_at: now }),
    {
        Note { id, content, created_at: now }
    }

    /// A note with a fresh identity, created at the clock's reading.
    pub fn new(content: String) -> (r: Self)
        ensures
            r@.content == content@,
            r@.id.len() == 36,
    {
        Note::with(random_id(), content, system_now())
    }
}


/// The value of an optional string.
pub open spec fn opt_view(o: Option<String>) -> Option<Seq<char>> {
    match o {
        Some(s) => Some(s@),
        None => None,
    }
}

/// Copies an optional string.
pub fn duplicate_opt(o: &Option<String>) -> (r: Option<String>)
    ensures
        opt_view(r) == opt_view(*o),
{
    match o {
        Some(s) => Some(s.clone()),
        None => None,
    }
}

/// A composition: an essay, a story or another written piece.
#[derive(Debug, PartialEq, Eq)]
pub struct Composition {
    pub id: String,
    pub title: String,
    pub content: String,
    pub notes: Vec<Note>,
    pub created_at: Timestamp,
    pub updated_at: Timestamp,
    pub archived: bool,
    pub word_count: usize,
    pub tags: Vec<String>,
    pub folder_id: Option<String>,
}

pub struct CompositionView {
    pub id: Seq<char>,
    pub title: Seq<char>,
    pub content: Seq<char>,
    pub notes: Seq<NoteView>,
    pub created_at: Timestamp,
    pub updated_at: Timestamp,
    pub archived: bool,
    pub word_count: nat,
    pub tags: Seq<Seq<char>>,
    pub folder_id: Option<Seq<char>>,
}

impl View for Composition {
    type V = CompositionView;

    open spec fn view(&self) -> CompositionView {
        CompositionView {
            id: self.id@,
            title: self.title@,
            content: self.content@,
            notes: views(self.notes@),
            created_at: self.created_at,
            updated_at: self.updated_at,
            archived: self.archived,
            word_count: self.word_count as nat,
            tags: views(self.tags@),
            folder_id: opt_view(self.folder_id),
        }
    }
}

/// The pattern of the title that a new composition gets from its creation
/// time.
pub open spec fn title_pattern() -> Seq<char> {
    "%Y-%m-%d %H:%M"@
}

impl CompositionView {
    /// The empty composition created at `now`.
    pub open spec fn fresh(id: Seq<char>, title: Seq<char>, now: Timestamp) -> CompositionView {
        CompositionView {
            id,
            title,
            content: Seq::empty(),
            notes: Seq::empty(),
            created_at: now,
            updated_at: now,
            archived: false,
            word_count: 0,
            tags: Seq::empty(),
            folder_id: None,
        }
    }

    /// The composition after a mutation at `now`: its modification time moves
    /// to `now` unless that would move it back.
    pub open spec fn touched(self, now: Timestamp) -> CompositionView {
        CompositionView { updated_at: self.updated_at.later(now), ..self }
    }

    /// The composition with its cached word count brought up to date.
    pub open spec fn recounted(self) -> CompositionView {
        CompositionView { word_count: token_count(self.content), ..self }
    }
}

impl Duplicate for Composition {
    fn duplicate(&self) -> (r: Self) {
        Composition {
            id: self.id.clone(),
            title: self.title.clone(),
            content: self.content.clone(),
            notes: duplicate_all(&self.notes),
            created_at: self.created_at,
            updated_at: self.updated_at,
            archived: self.archived,
            word_count: self.word_count,
            tags: duplicate_all(&self.tags),
            folder_id: duplicate_opt(&self.folder_id),
        }
    }
}

impl Clone for Composition {
    fn clone(&self) -> (r: Self)
        ensures
            r@ == self@,
    {
        self.duplicate()
    }
}

impl Composition {
    /// The empty composition with the given identity and title, created at
    /// `now`.
    pub fn with(id: String, title: String, now: Timestamp) -> (r: Self)
        ensures
            r@ == CompositionView::fresh(id@, title@, now),
    {
        let r = Composition {
            id,
            title,
            content: String::new(),
            notes: Vec::new(),
            created_at: now,
            updated_at: now,
            archived: false,
            word_count: 0,
            tags: Vec::new(),
            folder_id: None,
        };
        assert(r@.notes =~= Seq::empty());
        assert(r@.tags =~= Seq::empty());
        r
    }

    /// An empty composition with a fresh identity, created at the clock's
    /// reading and titled with that time to the minute.
    pub fn new() -> (r: Self)
        ensures
            r@ == CompositionView::fresh(r@.id, stamp(r@.created_at, title_pattern()), r@.created_at),
            r@.id.len() == 36,
    {
        let now = system_now();
        let title = stamp_text(now, "%Y-%m-%d %H:%M");
        Composition::with(random_id(), title, now)
    }

    /// Brings the cached word count up to date with the content.
    pub fn update_word_count(&mut self)
        ensures
            final(self)@ == old(self)@.recounted(),
    {
        self.word_count = count_words(self.content.as_str());
    }

    /// Puts `note` before the other notes.
    pub fn add_note_with(&mut self, note: Note)
        ensures
            final(self)@ == (CompositionView {
                notes: seq![note@] + old(self)@.notes,
                ..old(self)@
            }),
    {
        self.notes.insert(0, note);
        assert(views(self.notes@) =~= seq![note@] + views(old(self).notes@));
    }

    /// Puts a new note with the text `content` before the other notes; it
    /// has a fresh identity and the clock's reading as its creation time.
    pub fn add_note(&mut self, content: String)
        ensures
            final(self)@.notes.len() == old(self)@.notes.len() + 1,
            final(self)@ == (CompositionView {
                notes: seq![final(self)@.notes[0]] + old(self)@.notes,
                ..old(self)@
            }),
            final(self)@.notes[0].content == content@,
    {
        self.add_note_with(Note::new(content));
    }

    /// Deletes every note with the identity `note_id`; the others keep
    /// their order.
    pub fn remove_note(&mut self, note_id: &str)
        ensures
            final(self)@ == (CompositionView {
                notes: old(self)@.notes.filter(|n: NoteView| n.id != note_id@),
                ..old(self)@
            }),
    {
        let key = note_id.to_owned();
        let ghost keep = |n: NoteView| n.id != note_id@;
        let ghost all = views(self.notes@);
        let mut kept: Vec<Note> = Vec::new();
        let mut i: usize = 0;
        while i < self.notes.len()
            invariant
                i <= self.notes.len(),
                key@ == note_id@,
                keep == (|n: NoteView| n.id != note_id@),
                all == views(self.notes@),
                *self == *old(self),
                views(kept@) == all.take(i as int).filter(keep),
            decreases self.notes.len() - i,
        {
            proof {
                assert(all.take(i + 1) =~= all.take(i as int).push(all[i as int]));
                all.take(i as int).lemma_filter_push(all[i as int], keep);
            }
            if self.notes[i].id != key {
                let ghost before = views(kept@);
                kept.push(self.notes[i].duplicate());
                assert(views(kept@) =~= before.push(all[i as int]));
            }
            i += 1;
        }
        assert(all.take(all.len() as int) =~= all);
        self.notes = kept;
    }

    /// Records a mutation at `now`: the modification time never moves back.
    pub fn touch(&mut self, now: Timestamp)
        ensures
            final(self)@ == old(self)@.touched(now),
            final(self)@.updated_at.at_or_after(old(self)@.updated_at),
    {
        self.updated_at = self.updated_at.later_of(now);
    }
}

impl Default for Composition {
    fn default() -> (r: Self)
        ensures
            r@ == CompositionView::fresh(r@.id, stamp(r@.created_at, title_pattern()), r@.created_at),
    {
        Composition::new()
    }
}

/// A folder that compositions can point to.
#[derive(Debug, PartialEq, Eq)]
pub struct Folder {
    pub id: String,
    pub name: String,
    pub created_at: Timestamp,
    pub expanded: bool,
}

pub struct FolderView {
    pub id: Seq<char>,
    pub name: Seq<char>,
    pub created_at: Timestamp,
    pub expanded: bool,
}

impl View for Folder {
    type V = FolderView;

    open spec fn view(&self) -> FolderView {
        FolderView {
            id: self.id@,
            name: self.name@,
            created_at: self.created_at,
            expanded: self.expanded,
        }
    }
}

impl Duplicate for Folder {
    fn duplicate(&self) -> (r: Self) {
        Folder {
            id: self.id.clone(),
            name: self.name.clone(),
            created_at: self.created_at,
            expanded: self.expanded,
        }
    }
}

impl Clone for Folder {
    fn clone(&self) -> (r: Self)
        ensures
            r@ == self@,
    {
        self.duplicate()
    }
}

impl Folder {
    /// The expanded folder with the given identity and name, created at `now`.
    pub fn with(id: String, name: String, now: Timestamp) -> (r: Self)
        ensures
            r@ == (FolderView { id: id@, name: name@, created_at: now, expanded: true }),
    {
        Folder { id, name, created_at: now, expanded: true }
    }

    /// An expanded folder with a fresh identity, created at the clock's
    /// reading.
    pub fn new(name: String) -> (r: Self)
        ensures
            r@.name == name@,
            r@.expanded,
            r@.id.len() == 36,
    {
        Folder::with(random_id(), name, system_now())
    }
}

/// One timed free-writing session.
#[derive(Debug, PartialEq, Eq)]
pub struct Flow {
    pub id: String,
    pub content: String,
    pub duration_minutes: u32,
    pub actual_duration_seconds: u64,
    pub created_at: Timestamp,
}

pub struct FlowView {
    pub id: Seq<char>,
    pub content: Seq<char>,
    pub duration_minutes: u32,
    pub actual_duration_seconds: u64,
    pub created_at: Timestamp,
}

impl View for Flow {
    type V = FlowView;

    open spec fn view(&self) -> FlowView {
        FlowView {
            id: self.id@,
            content: self.content@,
            duration_minutes: self.duration_minutes,
            actual_duration_seconds: self.actual_duration_seconds,
            created_at: self.created_at,
        }
    }
}

impl FlowView {
    /// The record of a session that has not run yet.
    pub open spec fn fresh(id: Seq<char>, duration_minutes: u32, now: Timestamp) -> FlowView {
        FlowView {
            id,
            content: Seq::empty(),
            duration_minutes,
            actual_duration_seconds: 0,
            created_at: now,
        }
    }
}

impl Duplicate for Flow {
    fn duplicate(&self) -> (r: Self) {
        Flow {
            id: self.id.clone(),
            content: self.content.clone(),
            duration_minutes: self.duration_minutes,
            actual_duration_seconds: self.actual_duration_seconds,
            created_at: self.created_at,
        }
    }
}

impl Clone for Flow {
    fn clone(&self) -> (r: Self)
        ensures
            r@ == self@,
    {
        self.duplicate()
    }
}

impl Flow {
    /// The record of a session of `duration_minutes` that has not run yet.
    pub fn with(id: String, duration_minutes: u32, now: Timestamp) -> (r: Self)
        ensures
            r@ == FlowView::fresh(id@, duration_minutes, now),
    {
        Flow {
            id,
            content: String::new(),
            duration_minutes,
            actual_duration_seconds: 0,
            created_at: now,
        }
    }

    /// A record with a fresh identity, created at the clock's reading.
    pub fn new(duration_minutes: u32) -> (r: Self)
        ensures
            r@ == FlowView::fresh(r@.id, duration_minutes, r@.created_at),
            r@.id.len() == 36,
    {
        Flow::with(random_id(), duration_minutes, system_now())
    }

    /// The number of white-space-delimited words of the text.
    pub fn word_count(&self) -> (n: usize)
        ensures
            n == token_count(self@.content),
    {
        count_words(self.content.as_str())
    }
}


/// A project: compositions in the order in which they are published.
#[derive(Debug, PartialEq, Eq)]
pub struct Project {
    pub id: String,
    pub title: String,
    pub description: String,
    pub composition_ids: Vec<String>,
    pub created_at: Timestamp,
    pub updated_at: Timestamp,
}

pub struct ProjectView {
    pub id: Seq<char>,
    pub title: Seq<char>,
    pub description: Seq<char>,
    pub composition_ids: Seq<Seq<char>>,
    pub created_at: Timestamp,
    pub updated_at: Timestamp,
}

impl View for Project {
    type V = ProjectView;

    open spec fn view(&self) -> ProjectView {
        ProjectView {
            id: self.id@,
            title: self.title@,
            description: self.description@,
            composition_ids: views(self.composition_ids@),
            created_at: self.created_at,
            updated_at: self.updated_at,
        }
    }
}

impl ProjectView {
    /// No composition is listed twice.
    pub open spec fn wf(self) -> bool {
        self.composition_ids.no_duplicates()
    }

    /// The empty project created at `now`.
    pub open spec fn fresh(id: Seq<char>, title: Seq<char>, now: Timestamp) -> ProjectView {
        ProjectView {
            id,
            title,
            description: Seq::empty(),
            composition_ids: Seq::empty(),
            created_at: now,
            updated_at: now,
        }
    }

    /// After `id` is added at `now`: it goes to the end, unless it is listed
    /// already, in which case nothing changes.
    pub open spec fn added(self, id: Seq<char>, now: Timestamp) -> ProjectView {
        if self.composition_ids.contains(id) {
            self
        } else {
            ProjectView {
                composition_ids: self.composition_ids.push(id),
                updated_at: now,
                ..self
            }
        }
    }

    /// After `id` is removed at `now`: the others keep their order.
    pub open spec fn removed(self, id: Seq<char>, now: Timestamp) -> ProjectView {
        ProjectView {
            composition_ids: self.composition_ids.filter(|x: Seq<char>| x != id),
            updated_at: now,
            ..self
        }
    }

    /// After the list is replaced by `order` at `now`.
    pub open spec fn reordered(self, order: Seq<Seq<char>>, now: Timestamp) -> ProjectView {
        ProjectView { composition_ids: order, updated_at: now, ..self }
    }

    /// The place where the entry at `from` stands after a move to `to`:
    /// `to` itself where both are places of the list, the last place where
    /// `to` is the place behind the last, and none otherwise or where the two
    /// are equal.
    pub open spec fn move_target(self, from: int, to: int) -> Option<int> {
        let n = self.composition_ids.len() as int;
        if from == to || from < 0 || from >= n || to < 0 || to > n {
            None
        } else if to < n {
            Some(to)
        } else {
            Some(n - 1)
        }
    }

    /// After the entry at `from` is moved to `to` at `now`: the two entries
    /// change places where `to` is a place of the list; the entry goes to the
    /// end where `to` is the place behind the last.
    pub open spec fn moved(self, from: int, to: int, now: Timestamp) -> ProjectView {
        let ids = self.composition_ids;
        if self.move_target(from, to) is None {
            self
        } else if to < ids.len() {
            ProjectView {
                composition_ids: ids.update(from, ids[to]).update(to, ids[from]),
                updated_at: now,
                ..self
            }
        } else {
            ProjectView {
                composition_ids: ids.remove(from).push(ids[from]),
                updated_at: now,
                ..self
            }
        }
    }
}

impl Duplicate for Project {
    fn duplicate(&self) -> (r: Self) {
        Project {
            id: self.id.clone(),
            title: self.title.clone(),
            description: self.description.clone(),
            composition_ids: duplicate_all(&self.composition_ids),
            created_at: self.created_at,
            updated_at: self.updated_at,
        }
    }
}

impl Clone for Project {
    fn clone(&self) -> (r: Self)
        ensures
            r@ == self@,
    {
        self.duplicate()
    }
}

/// Decides whether `list` holds `id`.
pub fn holds(list: &Vec<String>, id: &String) -> (b: bool)
    ensures
        b == views(list@).contains(id@),
{
    let mut i: usize = 0;
    while i < list.len()
        invariant
            i <= list.len(),
            forall|k: int| 0 <= k < i ==> views(list@)[k] != id@,
        decreases list.len() - i,
    {
        if list[i] == *id {
            assert(views(list@)[i as int] == id@);
            return true;
        }
        i += 1;
    }
    false
}

impl Project {
    /// The empty project with the given identity and title, created at `now`.
    pub fn with(id: String, title: String, now: Timestamp) -> (r: Self)
        ensures
            r@ == ProjectView::fresh(id@, title@, now),
            r@.wf(),
    {
        let r = Project {
            id,
            title,
            description: String::new(),
            composition_ids: Vec::new(),
            created_at: now,
            updated_at: now,
        };
        assert(r@.composition_ids =~= Seq::empty());
        r
    }

    /// An empty project with a fresh identity, created at the clock's reading.
    pub fn new(title: String) -> (r: Self)
        ensures
            r@ == ProjectView::fresh(r@.id, title@, r@.created_at),
            r@.id.len() == 36,
            r@.wf(),
    {
        Project::with(random_id(), title, system_now())
    }

    /// Adds `composition_id` at the end at the time `now`, unless it is
    /// listed already.
    pub fn add_composition_at(&mut self, composition_id: String, now: Timestamp)
        ensures
            final(self)@ == old(self)@.added(composition_id@, now),
            old(self)@.wf() ==> final(self)@.wf(),
    {
        if !holds(&self.composition_ids, &composition_id) {
            self.composition_ids.push(composition_id);
            self.updated_at = now;
            assert(self@.composition_ids =~= old(self)@.composition_ids.push(composition_id@));
        }
    }

    /// Adds `composition_id` at the end, unless it is listed already; the
    /// modification time is then the clock's reading.
    pub fn add_composition(&mut self, composition_id: String)
        ensures
            exists|now: Timestamp| final(self)@ == old(self)@.added(composition_id@, now),
            old(self)@.wf() ==> final(self)@.wf(),
    {
        let now = system_now();
        self.add_composition_at(composition_id, now);
    }

    /// Removes `composition_id` at the time `now`.
    pub fn remove_composition_at(&mut self, composition_id: &str, now: Timestamp)
        ensures
            final(self)@ == old(self)@.removed(composition_id@, now),
            old(self)@.wf() ==> final(self)@.wf(),
            !final(self)@.composition_ids.contains(composition_id@),
    {
        let key = composition_id.to_owned();
        let ghost keep = |x: Seq<char>| x != composition_id@;
        let ghost all = views(self.composition_ids@);
        let mut kept: Vec<String> = Vec::new();
        let mut i: usize = 0;
        while i < self.composition_ids.len()
            invariant
                i <= self.composition_ids.len(),
                key@ == composition_id@,
                keep == (|x: Seq<char>| x != composition_id@),
                all == views(self.composition_ids@),
                views(kept@) == all.take(i as int).filter(keep),
            decreases self.composition_ids.len() - i,
        {
            proof {
                assert(all.take(i + 1) =~= all.take(i as int).push(all[i as int]));
                all.take(i as int).lemma_filter_push(all[i as int], keep);
            }
            if self.composition_ids[i] != key {
                let ghost before = views(kept@);
                kept.push(self.composition_ids[i].clone());
                assert(views(kept@) =~= before.push(all[i as int]));
            }
            i += 1;
        }
        assert(all.take(all.len() as int) =~= all);
        self.composition_ids = kept;
        self.updated_at = now;
        proof {
            if old(self)@.wf() {
                lemma_filter_keeps_distinct(all, keep);
            }
            let out = all.filter(keep);
            assert forall|k: int| 0 <= k < out.len() implies out[k] != composition_id@ by {
                all.lemma_filter_pred(keep, k);
            }
        }
    }

    /// Removes `composition_id`; the modification time is then the clock's
    /// reading.
    pub fn remove_composition(&mut self, composition_id: &str)
        ensures
            exists|now: Timestamp| final(self)@ == old(self)@.removed(composition_id@, now),
            old(self)@.wf() ==> final(self)@.wf(),
            !final(self)@.composition_ids.contains(composition_id@),
    {
        let now = system_now();
        self.remove_composition_at(composition_id, now);
    }

    /// Replaces the list by `new_order` at the time `now`. The project stays
    /// well formed if `new_order` lists nothing twice.
    pub fn reorder_compositions_at(&mut self, new_order: Vec<String>, now: Timestamp)
        ensures
            final(self)@ == old(self)@.reordered(views(new_order@), now),
            views(new_order@).no_duplicates() ==> final(self)@.wf(),
    {
        self.composition_ids = new_order;
        self.updated_at = now;
    }

    /// Replaces the list by `new_order`; the modification time is then the
    /// clock's reading.
    pub fn reorder_compositions(&mut self, new_order: Vec<String>)
        ensures
            exists|now: Timestamp| final(self)@ == old(self)@.reordered(views(new_order@), now),
            views(new_order@).no_duplicates() ==> final(self)@.wf(),
    {
        let now = system_now();
        self.reorder_compositions_at(new_order, now);
    }

    /// Gives the project the title `title` at the time `now`.
    pub fn retitle_at(&mut self, title: String, now: Timestamp)
        ensures
            final(self)@ == (ProjectView { title: title@, updated_at: now, ..old(self)@ }),
    {
        self.title = title;
        self.updated_at = now;
    }

    /// Gives the project the description `description` at the time `now`.
    pub fn describe_at(&mut self, description: String, now: Timestamp)
        ensures
            final(self)@ == (ProjectView {
                description: description@,
                updated_at: now,
                ..old(self)@
            }),
    {
        self.description = description;
        self.updated_at = now;
    }

    /// Moves the entry at `from` to `to` at the time `now` and says where it
    /// stands afterwards; `None` where nothing moved.
    pub fn move_composition_at(&mut self, from: usize, to: usize, now: Timestamp) -> (r: Option<usize>)
        ensures
            final(self)@ == old(self)@.moved(from as int, to as int, now),
            match r {
                Some(k) => old(self)@.move_target(from as int, to as int) == Some(k as int),
                None => old(self)@.move_target(from as int, to as int) is None,
            },
            old(self)@.wf() ==> final(self)@.wf(),
    {
        let n = self.composition_ids.len();
        if from == to || from >= n || to > n {
            return None;
        }
        let ghost ids = views(self.composition_ids@);
        self.updated_at = now;
        if to < n {
            let a = self.composition_ids[from].clone();
            let b = self.composition_ids[to].clone();
            self.composition_ids[from] = b;
            self.composition_ids[to] = a;
            assert(views(self.composition_ids@) =~= ids.update(from as int, ids[to as int]).update(
                to as int,
                ids[from as int],
            ));
            Some(to)
        } else {
            let item = self.composition_ids.remove(from);
            self.composition_ids.push(item);
            assert(views(self.composition_ids@) =~= ids.remove(from as int).push(ids[from as int]));
            Some(n - 1)
        }
    }
}

/// Filtering a list without repetitions leaves a list without repetitions.
pub proof fn lemma_filter_keeps_distinct<A>(s: Seq<A>, keep: spec_fn(A) -> bool)
    requires
        s.no_duplicates(),
    ensures
        s.filter(keep).no_duplicates(),
    decreases s.len(),
{
    reveal(Seq::filter);
    if s.len() > 0 {
        let front = s.drop_last();
        lemma_filter_keeps_distinct(front, keep);
        if keep(s.last()) {
            let out = front.filter(keep);
            assert forall|i: int| 0 <= i < out.len() implies out[i] != s.last() by {
                assert(front.contains(out[i])) by {
                    lemma_filter_within(front, keep, i);
                }
                let k = choose|k: int| 0 <= k < front.len() && front[k] == out[i];
                assert(s[k] == out[i]);
            }
        }
    }
}

/// Every element of a filtered list is an element of the list.
pub proof fn lemma_filter_within<A>(s: Seq<A>, keep: spec_fn(A) -> bool, i: int)
    requires
        0 <= i < s.filter(keep).len(),
    ensures
        s.contains(s.filter(keep)[i]),
    decreases s.len(),
{
    reveal(Seq::filter);
    if s.len() > 0 {
        let front = s.drop_last();
        if i < front.filter(keep).len() {
            lemma_filter_within(front, keep, i);
            let k = choose|k: int| 0 <= k < front.len() && front[k] == front.filter(keep)[i];
            assert(s[k] == front.filter(keep)[i]);
        } else {
            assert(s[s.len() - 1] == s.last());
        }
    }
}

} // verus!
