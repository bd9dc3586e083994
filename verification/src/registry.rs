//! The registry: the one ordered collection of compositions and folders, and
//! the one composition that is open for editing. The open composition is a
//! copy; every change to it is written into the collection at once.

use crate::clock::{stamp, system_now, Timestamp};
use crate::models::{
    duplicate_all, opt_view, title_pattern, views, Composition, CompositionView, Duplicate,
    Folder, FolderView, Note,
};
use crate::registry_laws::{
    lemma_adopted_mirrors, lemma_archived_mirrors, lemma_folder_deleted_keeps,
    lemma_moved_mirrors, lemma_mutated_mirrors, lemma_opened_mirrors, lemma_restored_mirrors,
    lemma_with_entry_mirrors,
};
use crate::registry_model::{
    entry_of, find_folder, find_id, has_entry, lemma_find_id_bounds, listed_in, listing,
    released, synced, EditView, RegistryView,
};
use vstd::prelude::*;
use vstd::string::StringExecFns;

verus! {

/// One change that the editor reports for the open composition.
pub enum Edit {
    Title(String),
    Content(String),
    Notes(Vec<Note>),
}

impl View for Edit {
    type V = EditView;

    open spec fn view(&self) -> EditView {
        match self {
            Edit::Title(t) => EditView::Title(t@),
            Edit::Content(c) => EditView::Content(c@),
            Edit::Notes(n) => EditView::Notes(views(n@)),
        }
    }
}

/// Finds the entry of the identity `id`.
fn position(list: &Vec<Composition>, id: &String) -> (i: usize)
    ensures
        i == entry_of(views(list@), id@),
        i <= list.len(),
        i < list.len() ==> list@[i as int]@.id == id@,
{
    let mut i: usize = 0;
    while i < list.len()
        invariant
            i <= list.len(),
            find_id(views(list@), id@, i as int) == find_id(views(list@), id@, 0),
        decreases list.len() - i,
    {
        if list[i].id == *id {
            return i;
        }
        i += 1;
    }
    i
}

/// Finds the first folder with the identity `id`.
fn folder_position(list: &Vec<Folder>, id: &String) -> (i: usize)
    ensures
        i == find_folder(views(list@), id@, 0),
        i <= list.len(),
{
    let mut i: usize = 0;
    while i < list.len()
        invariant
            i <= list.len(),
            find_folder(views(list@), id@, i as int) == find_folder(views(list@), id@, 0),
        decreases list.len() - i,
    {
        if list[i].id == *id {
            return i;
        }
        i += 1;
    }
    i
}

/// Writes a copy of `doc` over the entry of its identity.
fn write_back(list: &mut Vec<Composition>, doc: &Composition)
    ensures
        views(final(list)@) == synced(views(old(list)@), doc@),
{
    let i = position(list, &doc.id);
    if i < list.len() {
        list[i] = doc.duplicate();
        assert(views(list@) =~= views(old(list)@).update(i as int, doc@));
    }
}

/// Decides whether the folder reference `folder` names `id`.
fn points_to(folder: &Option<String>, id: &String) -> (b: bool)
    ensures
        b == (opt_view(*folder) == Some(id@)),
{
    match folder {
        Some(f) => *f == *id,
        None => false,
    }
}

/// The registry of compositions and folders.
pub struct CompositionRegistry {
    compositions: Vec<Composition>,
    folders: Vec<Folder>,
    active: Option<Composition>,
}

impl View for CompositionRegistry {
    type V = RegistryView;

    closed spec fn view(&self) -> RegistryView {
        RegistryView {
            compositions: views(self.compositions@),
            folders: views(self.folders@),
            active: match self.active {
                Some(a) => Some(a@),
                None => None,
            },
        }
    }
}

impl CompositionRegistry {
    /// The open composition, if there is one, mirrors its entry.
    pub open spec fn wf(&self) -> bool {
        self@.mirrored()
    }

    /// A registry over the given collections, with no composition open.
    pub fn new(compositions: Vec<Composition>, folders: Vec<Folder>) -> (r: Self)
        ensures
            r@ == (RegistryView {
                compositions: views(compositions@),
                folders: views(folders@),
                active: None,
            }),
            r.wf(),
    {
        CompositionRegistry { compositions, folders, active: None }
    }

    /// The collection of compositions, in order.
    pub fn compositions(&self) -> (r: &Vec<Composition>)
        ensures
            views(r@) == self@.compositions,
    {
        &self.compositions
    }

    /// The folders, in order.
    pub fn folders(&self) -> (r: &Vec<Folder>)
        ensures
            views(r@) == self@.folders,
    {
        &self.folders
    }

    /// The open composition.
    pub fn active(&self) -> (r: Option<&Composition>)
        ensures
            match r {
                Some(a) => self@.active == Some(a@),
                None => self@.active is None,
            },
    {
        self.active.as_ref()
    }

    /// A copy of the whole collection, as it is handed to the store.
    pub fn snapshot(&self) -> (r: Vec<Composition>)
        ensures
            views(r@) == self@.compositions,
    {
        duplicate_all(&self.compositions)
    }

    /// The collection holds an entry for `id`.
    pub fn contains(&self, id: &str) -> (b: bool)
        ensures
            b == has_entry(self@.compositions, id@),
    {
        let key = id.to_owned();
        position(&self.compositions, &key) < self.compositions.len()
    }

    /// Writes the open composition into the collection.
    pub fn sync_active(&mut self)
        ensures
            final(self)@ == (RegistryView { compositions: old(self)@.merged(), ..old(self)@ }),
            old(self).wf() ==> final(self)@ == old(self)@,
    {
        match &self.active {
            Some(a) => {
                write_back(&mut self.compositions, a);
            },
            None => {},
        }
        proof {
            if old(self).wf() {
                if let Some(a) = old(self)@.active {
                    lemma_find_id_bounds(old(self)@.compositions, a.id, 0);
                }
                assert(self@.compositions =~= old(self)@.compositions);
            }
        }
    }

    /// Opens the composition `id`. The composition that was open is first
    /// written into the collection. Where `id` has no entry nothing else
    /// happens. The answer says whether `id` was found.
    pub fn open(&mut self, id: &str) -> (found: bool)
        ensures
            final(self)@ == old(self)@.opened(id@),
            found == has_entry(old(self)@.merged(), id@),
            old(self).wf() ==> final(self).wf(),
    {
        self.sync_active();
        let key = id.to_owned();
        let i = position(&self.compositions, &key);
        proof {
            if old(self).wf() {
                lemma_opened_mirrors(old(self)@, id@);
            }
        }
        if i < self.compositions.len() {
            self.active = Some(self.compositions[i].duplicate());
            true
        } else {
            false
        }
    }

    /// Applies one edit to the open composition at the time `now`: the field
    /// is replaced, a new content is counted, the modification time moves on,
    /// and the result is written into the collection at once. Where no
    /// composition is open nothing happens and the answer is `false`.
    pub fn mutate_active_at(&mut self, edit: Edit, now: Timestamp) -> (changed: bool)
        ensures
            final(self)@ == old(self)@.mutated(edit@, now),
            changed == (old(self)@.active is Some),
            old(self).wf() ==> final(self).wf(),
    {
        proof {
            if old(self).wf() {
                lemma_mutated_mirrors(old(self)@, edit@, now);
            }
        }
        match self.active.take() {
            None => false,
            Some(mut doc) => {
                match edit {
                    Edit::Title(title) => {
                        doc.title = title;
                    },
                    Edit::Content(content) => {
                        doc.content = content;
                        doc.update_word_count();
                    },
                    Edit::Notes(notes) => {
                        doc.notes = notes;
                    },
                }
                doc.touch(now);
                write_back(&mut self.compositions, &doc);
                self.active = Some(doc);
                true
            },
        }
    }

    /// Applies one edit to the open composition at the clock's reading.
    /// Whatever the clock reads, the open composition mirrors its entry
    /// afterwards and its modification time has not moved back.
    pub fn mutate_active(&mut self, edit: Edit) -> (changed: bool)
        ensures
            changed == (old(self)@.active is Some),
            exists|now: Timestamp| final(self)@ == old(self)@.mutated(edit@, now),
            old(self).wf() ==> final(self).wf(),
    {
        let now = system_now();
        self.mutate_active_at(edit, now)
    }

    /// Puts `doc` at the head of the collection and opens it; the composition
    /// that was open is first written into the collection.
    pub fn insert(&mut self, doc: Composition)
        ensures
            final(self)@ == old(self)@.inserted(doc@),
            final(self).wf(),
    {
        self.sync_active();
        let copy = doc.duplicate();
        self.compositions.insert(0, doc);
        self.active = Some(copy);
        proof {
            assert(self@.compositions =~= seq![doc@] + old(self)@.merged());
        }
    }

    /// Creates an empty composition with a fresh identity, titled with the
    /// clock's reading, puts it at the head of the collection and opens it.
    pub fn insert_new(&mut self)
        ensures
            final(self).wf(),
            final(self)@.active is Some,
            final(self)@ == old(self)@.inserted(final(self)@.active->0),
            final(self)@.active->0 == CompositionView::fresh(
                final(self)@.active->0.id,
                stamp(final(self)@.active->0.created_at, title_pattern()),
                final(self)@.active->0.created_at,
            ),
            final(self)@.active->0.id.len() == 36,
    {
        self.insert(Composition::new());
    }

    /// Archives the open composition at the time `now`; it stays open. The
    /// answer says whether a composition was open.
    pub fn archive_active_at(&mut self, now: Timestamp) -> (changed: bool)
        ensures
            final(self)@ == old(self)@.archived_active(now),
            changed == (old(self)@.active is Some),
            old(self).wf() ==> final(self).wf(),
    {
        proof {
            if old(self).wf() {
                lemma_archived_mirrors(old(self)@, now);
            }
        }
        match self.active.take() {
            None => false,
            Some(mut doc) => {
                doc.archived = true;
                doc.touch(now);
                write_back(&mut self.compositions, &doc);
                self.active = Some(doc);
                true
            },
        }
    }

    /// Archives the open composition at the clock's reading.
    pub fn archive_active(&mut self) -> (changed: bool)
        ensures
            changed == (old(self)@.active is Some),
            exists|now: Timestamp| final(self)@ == old(self)@.archived_active(now),
            old(self).wf() ==> final(self).wf(),
    {
        let now = system_now();
        self.archive_active_at(now)
    }

    /// Replaces the entry at `i` by `doc`, and the open composition too where
    /// it has the same identity.
    fn put_entry(&mut self, i: usize, doc: Composition)
        requires
            i < old(self).compositions.len(),
        ensures
            final(self)@ == old(self)@.with_entry(i as int, doc@),
    {
        let follows = match &self.active {
            Some(a) => a.id == doc.id,
            None => false,
        };
        if follows {
            self.active = Some(doc.duplicate());
        }
        self.compositions[i] = doc;
        assert(self@.compositions =~= old(self)@.compositions.update(i as int, doc@));
    }

    /// Takes the composition `id` out of the archive at the time `now`. The
    /// answer says whether `id` has an entry.
    pub fn restore_at(&mut self, id: &str, now: Timestamp) -> (changed: bool)
        ensures
            final(self)@ == old(self)@.restored(id@, now),
            changed == has_entry(old(self)@.compositions, id@),
            old(self).wf() ==> final(self).wf(),
    {
        proof {
            if old(self).wf() {
                lemma_restored_mirrors(old(self)@, id@, now);
            }
        }
        let key = id.to_owned();
        let i = position(&self.compositions, &key);
        if i < self.compositions.len() {
            let mut doc = self.compositions[i].duplicate();
            doc.archived = false;
            doc.touch(now);
            self.put_entry(i, doc);
            true
        } else {
            false
        }
    }

    /// Takes the composition `id` out of the archive at the clock's reading.
    pub fn restore(&mut self, id: &str) -> (changed: bool)
        ensures
            changed == has_entry(old(self)@.compositions, id@),
            exists|now: Timestamp| final(self)@ == old(self)@.restored(id@, now),
            old(self).wf() ==> final(self).wf(),
    {
        let now = system_now();
        self.restore_at(id, now)
    }

    /// Moves the composition `id` into `folder`, or out of any folder, at the
    /// time `now`. The answer says whether `id` has an entry.
    pub fn move_to_folder_at(&mut self, id: &str, folder: Option<String>, now: Timestamp) -> (changed: bool)
        ensures
            final(self)@ == old(self)@.moved(id@, opt_view(folder), now),
            changed == has_entry(old(self)@.compositions, id@),
            old(self).wf() ==> final(self).wf(),
    {
        proof {
            if old(self).wf() {
                lemma_moved_mirrors(old(self)@, id@, opt_view(folder), now);
            }
        }
        let key = id.to_owned();
        let i = position(&self.compositions, &key);
        if i < self.compositions.len() {
            let mut doc = self.compositions[i].duplicate();
            doc.folder_id = folder;
            doc.touch(now);
            self.put_entry(i, doc);
            true
        } else {
            false
        }
    }

    /// Moves the composition `id` at the clock's reading.
    pub fn move_to_folder(&mut self, id: &str, folder: Option<String>) -> (changed: bool)
        ensures
            changed == has_entry(old(self)@.compositions, id@),
            exists|now: Timestamp| final(self)@ == old(self)@.moved(id@, opt_view(folder), now),
            old(self).wf() ==> final(self).wf(),
    {
        let now = system_now();
        self.move_to_folder_at(id, folder, now)
    }

    /// Adds the folder `folder` at the end of the folders.
    pub fn add_folder(&mut self, folder: Folder)
        ensures
            final(self)@ == old(self)@.folder_added(folder@),
            old(self).wf() ==> final(self).wf(),
    {
        self.folders.push(folder);
        assert(self@.folders =~= old(self)@.folders.push(folder@));
    }

    /// Creates an expanded folder named `name`, with a fresh identity and the
    /// clock's reading as its creation time, at the end of the folders.
    pub fn create_folder(&mut self, name: String)
        ensures
            old(self).wf() ==> final(self).wf(),
            final(self)@.folders.len() == old(self)@.folders.len() + 1,
            final(self)@ == old(self)@.folder_added(final(self)@.folders.last()),
            final(self)@.folders.last().name == name@,
            final(self)@.folders.last().expanded,
            final(self)@.folders.last().id.len() == 36,
    {
        self.add_folder(Folder::new(name));
    }

    /// Collapses the first folder with the identity `id` if it is expanded,
    /// and expands it if it is collapsed. The answer says whether there is
    /// such a folder.
    pub fn toggle_folder(&mut self, id: &str) -> (changed: bool)
        ensures
            final(self)@ == old(self)@.folder_toggled(id@),
            changed == (find_folder(old(self)@.folders, id@, 0) < old(self)@.folders.len()),
            old(self).wf() ==> final(self).wf(),
    {
        let key = id.to_owned();
        let i = folder_position(&self.folders, &key);
        if i < self.folders.len() {
            let mut f = self.folders[i].duplicate();
            f.expanded = !f.expanded;
            self.folders[i] = f;
            assert(self@.folders =~= old(self)@.folders.update(i as int, f@));
            true
        } else {
            false
        }
    }

    /// Gives the first folder with the identity `id` the name `name`. The
    /// answer says whether there is such a folder.
    pub fn rename_folder(&mut self, id: &str, name: String) -> (changed: bool)
        ensures
            final(self)@ == old(self)@.folder_renamed(id@, name@),
            changed == (find_folder(old(self)@.folders, id@, 0) < old(self)@.folders.len()),
            old(self).wf() ==> final(self).wf(),
    {
        let key = id.to_owned();
        let i = folder_position(&self.folders, &key);
        if i < self.folders.len() {
            let mut f = self.folders[i].duplicate();
            f.name = name;
            self.folders[i] = f;
            assert(self@.folders =~= old(self)@.folders.update(i as int, f@));
            true
        } else {
            false
        }
    }

    /// Deletes the folder `id`. Every folder with that identity leaves the
    /// folders; every composition that pointed to it, the open one included,
    /// points to no folder afterwards and is otherwise untouched.
    pub fn delete_folder(&mut self, id: &str)
        ensures
            final(self)@ == old(self)@.folder_deleted(id@),
            old(self).wf() ==> final(self).wf(),
    {
        let key = id.to_owned();
        let mut i: usize = 0;
        while i < self.compositions.len()
            invariant
                i <= self.compositions.len(),
                key@ == id@,
                self.compositions.len() == old(self).compositions.len(),
                self.folders == old(self).folders,
                self.active == old(self).active,
                forall|k: int| 0 <= k < i ==> self.compositions@[k]@ == released(old(self).compositions@[k]@, id@),
                forall|k: int| i <= k < self.compositions.len() ==> self.compositions@[k] == old(self).compositions@[k],
            decreases self.compositions.len() - i,
        {
            if points_to(&self.compositions[i].folder_id, &key) {
                let mut doc = self.compositions[i].duplicate();
                doc.folder_id = None;
                self.compositions[i] = doc;
            }
            i += 1;
        }
        let ghost keep = |f: FolderView| f.id != id@;
        let mut kept: Vec<Folder> = Vec::new();
        let mut j: usize = 0;
        while j < self.folders.len()
            invariant
                j <= self.folders.len(),
                key@ == id@,
                keep == (|f: FolderView| f.id != id@),
                self.folders == old(self).folders,
                views(kept@) == views(self.folders@).take(j as int).filter(keep),
            decreases self.folders.len() - j,
        {
            proof {
                let all = views(self.folders@);
                assert(all.take(j + 1) =~= all.take(j as int).push(all[j as int]));
                all.take(j as int).lemma_filter_push(all[j as int], keep);
            }
            if self.folders[j].id != key {
                let ghost before = views(kept@);
                kept.push(self.folders[j].duplicate());
                assert(views(kept@) =~= before.push(self.folders@[j as int]@));
            }
            j += 1;
        }
        assert(views(self.folders@).take(self.folders.len() as int) =~= views(self.folders@));
        self.folders = kept;
        let released_active = match self.active.take() {
            Some(mut a) => {
                if points_to(&a.folder_id, &key) {
                    a.folder_id = None;
                }
                Some(a)
            },
            None => None,
        };
        self.active = released_active;
        proof {
            assert(self@.compositions =~= old(self)@.folder_deleted(id@).compositions);
            if old(self).wf() {
                lemma_folder_deleted_keeps(old(self)@, id@);
            }
        }
    }

    /// Appends `text` to the composition `id` at the time `now`, behind a
    /// rule where the composition already has text; its words are counted
    /// anew, and the open composition follows where it is that one. The
    /// answer says whether `id` has an entry.
    pub fn append_to_composition_at(&mut self, id: &str, text: &str, now: Timestamp) -> (changed: bool)
        ensures
            final(self)@ == old(self)@.appended(id@, text@, now),
            changed == has_entry(old(self)@.compositions, id@),
            old(self).wf() ==> final(self).wf(),
    {
        let key = id.to_owned();
        let i = position(&self.compositions, &key);
        if i < self.compositions.len() {
            let mut doc = self.compositions[i].duplicate();
            if !doc.content.as_str().is_empty() {
                doc.content.append("\n\n---\n\n");
            }
            doc.content.append(text);
            doc.update_word_count();
            doc.touch(now);
            proof {
                if old(self).wf() {
                    lemma_find_id_bounds(old(self)@.compositions, id@, 0);
                    lemma_with_entry_mirrors(old(self)@, i as int, doc@);
                }
            }
            self.put_entry(i, doc);
            true
        } else {
            false
        }
    }

    /// Appends `text` to the composition `id` at the clock's reading.
    pub fn append_to_composition(&mut self, id: &str, text: &str) -> (changed: bool)
        ensures
            changed == has_entry(old(self)@.compositions, id@),
            exists|now: Timestamp| final(self)@ == old(self)@.appended(id@, text@, now),
            old(self).wf() ==> final(self).wf(),
    {
        let now = system_now();
        self.append_to_composition_at(id, text, now)
    }

    /// Puts `doc` at the end of the collection and opens it; the composition
    /// that was open is first written into the collection.
    pub fn adopt(&mut self, doc: Composition)
        ensures
            final(self)@ == old(self)@.adopted(doc@),
            !has_entry(old(self)@.merged(), doc@.id) ==> final(self).wf(),
    {
        proof {
            lemma_adopted_mirrors(old(self)@, doc@);
        }
        self.sync_active();
        let copy = doc.duplicate();
        self.compositions.push(doc);
        self.active = Some(copy);
        proof {
            assert(self@.compositions =~= old(self)@.merged().push(doc@));
        }
    }

    /// Creates a composition that holds `text`, with a fresh identity and the
    /// clock's reading as its time and title, puts it at the end of the
    /// collection and opens it. It mirrors its entry unless the collection
    /// already held an entry for that identity.
    pub fn create_composition_from_text(&mut self, text: &str)
        ensures
            final(self)@.active is Some,
            !has_entry(old(self)@.merged(), final(self)@.active->0.id) ==> final(self).wf(),
            final(self)@ == old(self)@.adopted(final(self)@.active->0),
            final(self)@.active->0 == (CompositionView {
                content: text@,
                ..CompositionView::fresh(
                    final(self)@.active->0.id,
                    stamp(final(self)@.active->0.created_at, title_pattern()),
                    final(self)@.active->0.created_at,
                )
            }),
            final(self)@.active->0.id.len() == 36,
    {
        let mut doc = Composition::new();
        doc.content = text.to_owned();
        self.adopt(doc);
    }

    /// The compositions that are listed under `folder`, or outside all
    /// folders where `folder` is `None`, in the collection's order.
    pub fn listed(&self, folder: Option<&str>) -> (r: Vec<Composition>)
        ensures
            views(r@) == listing(
                self@.compositions,
                match folder {
                    Some(f) => Some(f@),
                    None => None,
                },
            ),
    {
        let key: Option<String> = match folder {
            Some(f) => Some(f.to_owned()),
            None => None,
        };
        let ghost target: Option<Seq<char>> = match folder {
            Some(f) => Some(f@),
            None => None,
        };
        let ghost keep = |c: CompositionView| listed_in(c, target);
        let ghost all = views(self.compositions@);
        let mut out: Vec<Composition> = Vec::new();
        let mut i: usize = 0;
        while i < self.compositions.len()
            invariant
                i <= self.compositions.len(),
                opt_view(key) == target,
                keep == (|c: CompositionView| listed_in(c, target)),
                all == views(self.compositions@),
                views(out@) == all.take(i as int).filter(keep),
            decreases self.compositions.len() - i,
        {
            proof {
                assert(all.take(i + 1) =~= all.take(i as int).push(all[i as int]));
                all.take(i as int).lemma_filter_push(all[i as int], keep);
            }
            let c = &self.compositions[i];
            let here = match &key {
                Some(k) => points_to(&c.folder_id, k),
                None => c.folder_id.is_none(),
            };
            if !c.archived && here {
                let ghost before = views(out@);
                out.push(c.duplicate());
                assert(views(out@) =~= before.push(all[i as int]));
            }
            i += 1;
        }
        assert(all.take(all.len() as int) =~= all);
        out
    }

    /// The compositions that are not archived, in the collection's order.
    pub fn unarchived(&self) -> (r: Vec<Composition>)
        ensures
            views(r@) == self@.compositions.filter(|c: CompositionView| !c.archived),
    {
        let ghost keep = |c: CompositionView| !c.archived;
        let ghost all = views(self.compositions@);
        let mut out: Vec<Composition> = Vec::new();
        let mut i: usize = 0;
        while i < self.compositions.len()
            invariant
                i <= self.compositions.len(),
                keep == (|c: CompositionView| !c.archived),
                all == views(self.compositions@),
                views(out@) == all.take(i as int).filter(keep),
            decreases self.compositions.len() - i,
        {
            proof {
                assert(all.take(i + 1) =~= all.take(i as int).push(all[i as int]));
                all.take(i as int).lemma_filter_push(all[i as int], keep);
            }
            if !self.compositions[i].archived {
                let ghost before = views(out@);
                out.push(self.compositions[i].duplicate());
                assert(views(out@) =~= before.push(all[i as int]));
            }
            i += 1;
        }
        assert(all.take(all.len() as int) =~= all);
        out
    }

    /// The archived compositions, in the collection's order.
    pub fn archived(&self) -> (r: Vec<Composition>)
        ensures
            views(r@) == self@.compositions.filter(|c: CompositionView| c.archived),
    {
        let ghost keep = |c: CompositionView| c.archived;
        let ghost all = views(self.compositions@);
        let mut out: Vec<Composition> = Vec::new();
        let mut i: usize = 0;
        while i < self.compositions.len()
            invariant
                i <= self.compositions.len(),
                keep == (|c: CompositionView| c.archived),
                all == views(self.compositions@),
                views(out@) == all.take(i as int).filter(keep),
            decreases self.compositions.len() - i,
        {
            proof {
                assert(all.take(i + 1) =~= all.take(i as int).push(all[i as int]));
                all.take(i as int).lemma_filter_push(all[i as int], keep);
            }
            if self.compositions[i].archived {
                let ghost before = views(out@);
                out.push(self.compositions[i].duplicate());
                assert(views(out@) =~= before.push(all[i as int]));
            }
            i += 1;
        }
        assert(all.take(all.len() as int) =~= all);
        out
    }
}

} // verus!
