//! The mathematical value of the registry, and what every operation makes
//! of it.

use crate::clock::Timestamp;
use crate::models::{CompositionView, FolderView, NoteView};
use vstd::prelude::*;

verus! {

pub enum EditView {
    Title(Seq<char>),
    Content(Seq<char>),
    Notes(Seq<NoteView>),
}

/// The first position at or after `from` of a composition with the identity
/// `id`, or the length of `list` where there is none.
pub open spec fn find_id(list: Seq<CompositionView>, id: Seq<char>, from: int) -> int
    decreases list.len() - from,
{
    if from < 0 || from >= list.len() {
        list.len() as int
    } else if list[from].id == id {
        from
    } else {
        find_id(list, id, from + 1)
    }
}

/// The position of the entry that stands for the identity `id`.
pub open spec fn entry_of(list: Seq<CompositionView>, id: Seq<char>) -> int {
    find_id(list, id, 0)
}

/// `list` holds an entry for `id`.
pub open spec fn has_entry(list: Seq<CompositionView>, id: Seq<char>) -> bool {
    entry_of(list, id) < list.len()
}

/// `list` with `doc` written over the entry of its identity; unchanged where
/// there is no such entry.
pub open spec fn synced(list: Seq<CompositionView>, doc: CompositionView) -> Seq<CompositionView> {
    if has_entry(list, doc.id) {
        list.update(entry_of(list, doc.id), doc)
    } else {
        list
    }
}

/// The composition after an edit made at `now`.
pub open spec fn edited(doc: CompositionView, edit: EditView, now: Timestamp) -> CompositionView {
    match edit {
        EditView::Title(title) => CompositionView { title, ..doc }.touched(now),
        EditView::Content(content) => CompositionView { content, ..doc }.recounted().touched(now),
        EditView::Notes(notes) => CompositionView { notes, ..doc }.touched(now),
    }
}

/// A text with another appended to it: behind a rule where the first is not
/// empty.
pub open spec fn joined(content: Seq<char>, text: Seq<char>) -> Seq<char> {
    if content.len() > 0 {
        content + "\n\n---\n\n"@ + text
    } else {
        text
    }
}

/// The composition is listed under `folder`, or outside all folders where
/// `folder` is `None`: it is not archived and points there.
pub open spec fn listed_in(c: CompositionView, folder: Option<Seq<char>>) -> bool {
    !c.archived && c.folder_id == folder
}

/// The compositions of `list` that are listed under `folder`, in order.
pub open spec fn listing(list: Seq<CompositionView>, folder: Option<Seq<char>>) -> Seq<CompositionView> {
    list.filter(|c: CompositionView| listed_in(c, folder))
}

/// The composition without its folder reference if that is `folder`.
pub open spec fn released(doc: CompositionView, folder: Seq<char>) -> CompositionView {
    if doc.folder_id == Some(folder) {
        CompositionView { folder_id: None, ..doc }
    } else {
        doc
    }
}

/// The first position at or after `from` of a folder with the identity `id`,
/// or the length of `list`.
pub open spec fn find_folder(list: Seq<FolderView>, id: Seq<char>, from: int) -> int
    decreases list.len() - from,
{
    if from < 0 || from >= list.len() {
        list.len() as int
    } else if list[from].id == id {
        from
    } else {
        find_folder(list, id, from + 1)
    }
}

/// What can happen to a registry.
pub enum RegistryEvent {
    Open(Seq<char>),
    Edit(EditView, Timestamp),
    Insert(CompositionView),
    Archive(Timestamp),
    Restore(Seq<char>, Timestamp),
    Move(Seq<char>, Option<Seq<char>>, Timestamp),
    Append(Seq<char>, Seq<char>, Timestamp),
    AddFolder(FolderView),
    ToggleFolder(Seq<char>),
    RenameFolder(Seq<char>, Seq<char>),
    DeleteFolder(Seq<char>),
}

/// The mathematical value of a registry.
pub struct RegistryView {
    pub compositions: Seq<CompositionView>,
    pub folders: Seq<FolderView>,
    pub active: Option<CompositionView>,
}

impl RegistryView {
    /// The open composition mirrors its entry: the collection holds an entry
    /// for its identity, and that entry equals it.
    pub open spec fn mirrored(self) -> bool {
        self.active matches Some(a) ==> has_entry(self.compositions, a.id)
            && self.compositions[entry_of(self.compositions, a.id)] == a
    }

    /// The collection with the open composition written into it.
    pub open spec fn merged(self) -> Seq<CompositionView> {
        match self.active {
            Some(a) => synced(self.compositions, a),
            None => self.compositions,
        }
    }

    /// After opening `id`: the open composition is first written into the
    /// collection; then, where `id` has an entry, a copy of it is the open
    /// composition.
    pub open spec fn opened(self, id: Seq<char>) -> RegistryView {
        let list = self.merged();
        if has_entry(list, id) {
            RegistryView { compositions: list, active: Some(list[entry_of(list, id)]), ..self }
        } else {
            RegistryView { compositions: list, ..self }
        }
    }

    /// After the open composition is replaced by `doc`, which is written
    /// into the collection at once.
    pub open spec fn with_active(self, doc: CompositionView) -> RegistryView {
        RegistryView {
            compositions: synced(self.compositions, doc),
            active: Some(doc),
            ..self
        }
    }

    /// After an edit of the open composition at `now`; unchanged where none is
    /// open.
    pub open spec fn mutated(self, edit: EditView, now: Timestamp) -> RegistryView {
        match self.active {
            Some(a) => self.with_active(edited(a, edit, now)),
            None => self,
        }
    }

    /// After `doc` is put at the head of the collection and opened.
    pub open spec fn inserted(self, doc: CompositionView) -> RegistryView {
        RegistryView {
            compositions: seq![doc] + self.merged(),
            active: Some(doc),
            ..self
        }
    }

    /// After the open composition is archived at `now`.
    pub open spec fn archived_active(self, now: Timestamp) -> RegistryView {
        match self.active {
            Some(a) => self.with_active(CompositionView { archived: true, ..a }.touched(now)),
            None => self,
        }
    }

    /// After the entry at `i` is replaced by `doc`, which has the entry's
    /// identity; the open composition follows where it has that identity.
    pub open spec fn with_entry(self, i: int, doc: CompositionView) -> RegistryView {
        RegistryView {
            compositions: self.compositions.update(i, doc),
            active: match self.active {
                Some(a) => if a.id == doc.id {
                    Some(doc)
                } else {
                    Some(a)
                },
                None => None,
            },
            ..self
        }
    }

    /// After the composition `id` is taken out of the archive at `now`.
    pub open spec fn restored(self, id: Seq<char>, now: Timestamp) -> RegistryView {
        let i = entry_of(self.compositions, id);
        if has_entry(self.compositions, id) {
            self.with_entry(
                i,
                CompositionView { archived: false, ..self.compositions[i] }.touched(now),
            )
        } else {
            self
        }
    }

    /// After the composition `id` is moved into `folder`, or out of any, at
    /// `now`.
    pub open spec fn moved(self, id: Seq<char>, folder: Option<Seq<char>>, now: Timestamp) -> RegistryView {
        let i = entry_of(self.compositions, id);
        if has_entry(self.compositions, id) {
            self.with_entry(
                i,
                CompositionView { folder_id: folder, ..self.compositions[i] }.touched(now),
            )
        } else {
            self
        }
    }

    /// After the folder `folder` is deleted: it is gone from the folders, and
    /// every composition that pointed to it points to none.
    pub open spec fn folder_deleted(self, folder: Seq<char>) -> RegistryView {
        RegistryView {
            compositions: Seq::new(
                self.compositions.len(),
                |i: int| released(self.compositions[i], folder),
            ),
            folders: self.folders.filter(|f: FolderView| f.id != folder),
            active: match self.active {
                Some(a) => Some(released(a, folder)),
                None => None,
            },
        }
    }

    /// After the folder `f` is added at the end.
    pub open spec fn folder_added(self, f: FolderView) -> RegistryView {
        RegistryView { folders: self.folders.push(f), ..self }
    }

    /// After the folder `id` is collapsed or expanded.
    pub open spec fn folder_toggled(self, id: Seq<char>) -> RegistryView {
        let i = find_folder(self.folders, id, 0);
        if i < self.folders.len() {
            RegistryView {
                folders: self.folders.update(
                    i,
                    FolderView { expanded: !self.folders[i].expanded, ..self.folders[i] },
                ),
                ..self
            }
        } else {
            self
        }
    }

    /// After the folder `id` is renamed.
    pub open spec fn folder_renamed(self, id: Seq<char>, name: Seq<char>) -> RegistryView {
        let i = find_folder(self.folders, id, 0);
        if i < self.folders.len() {
            RegistryView {
                folders: self.folders.update(i, FolderView { name, ..self.folders[i] }),
                ..self
            }
        } else {
            self
        }
    }

    /// After `text` is appended to the composition `id` at `now`, behind a
    /// rule where the composition already has text.
    pub open spec fn appended(self, id: Seq<char>, text: Seq<char>, now: Timestamp) -> RegistryView {
        let i = entry_of(self.compositions, id);
        if has_entry(self.compositions, id) {
            self.with_entry(
                i,
                CompositionView {
                    content: joined(self.compositions[i].content, text),
                    ..self.compositions[i]
                }.recounted().touched(now),
            )
        } else {
            self
        }
    }

    /// After `doc` is put at the end of the collection and opened.
    pub open spec fn adopted(self, doc: CompositionView) -> RegistryView {
        RegistryView { compositions: self.merged().push(doc), active: Some(doc), ..self }
    }

    /// After one event.
    pub open spec fn step(self, event: RegistryEvent) -> RegistryView {
        match event {
            RegistryEvent::Open(id) => self.opened(id),
            RegistryEvent::Edit(edit, now) => self.mutated(edit, now),
            RegistryEvent::Insert(doc) => self.inserted(doc),
            RegistryEvent::Archive(now) => self.archived_active(now),
            RegistryEvent::Restore(id, now) => self.restored(id, now),
            RegistryEvent::Move(id, folder, now) => self.moved(id, folder, now),
            RegistryEvent::Append(id, text, now) => self.appended(id, text, now),
            RegistryEvent::AddFolder(f) => self.folder_added(f),
            RegistryEvent::ToggleFolder(id) => self.folder_toggled(id),
            RegistryEvent::RenameFolder(id, name) => self.folder_renamed(id, name),
            RegistryEvent::DeleteFolder(id) => self.folder_deleted(id),
        }
    }

    /// After the events of `events`, in order.
    pub open spec fn run(self, events: Seq<RegistryEvent>) -> RegistryView
        decreases events.len(),
    {
        if events.len() == 0 {
            self
        } else {
            self.step(events[0]).run(events.drop_first())
        }
    }

    /// After the edits of `edits`, each with its time, in order.
    pub open spec fn after_edits(self, edits: Seq<(EditView, Timestamp)>) -> RegistryView
        decreases edits.len(),
    {
        if edits.len() == 0 {
            self
        } else {
            self.mutated(edits[0].0, edits[0].1).after_edits(edits.drop_first())
        }
    }
}

/// The entry that is found lies at or behind the start of the search, has
/// the identity, and no entry before it has.
pub proof fn lemma_find_id_bounds(list: Seq<CompositionView>, id: Seq<char>, from: int)
    requires
        0 <= from <= list.len(),
    ensures
        from <= find_id(list, id, from) <= list.len(),
        find_id(list, id, from) < list.len() ==> list[find_id(list, id, from)].id == id,
        forall|k: int| from <= k < find_id(list, id, from) ==> list[k].id != id,
    decreases list.len() - from,
{
    if from < list.len() && list[from].id != id {
        lemma_find_id_bounds(list, id, from + 1);
    }
}

/// Two collections with the same identities at the same places hold the
/// entry of an identity at the same place.
pub proof fn lemma_find_id_by_ids(a: Seq<CompositionView>, b: Seq<CompositionView>, id: Seq<char>, from: int)
    requires
        0 <= from <= a.len(),
        a.len() == b.len(),
        forall|k: int| 0 <= k < a.len() ==> a[k].id == b[k].id,
    ensures
        find_id(a, id, from) == find_id(b, id, from),
    decreases a.len() - from,
{
    if from < a.len() && a[from].id != id {
        lemma_find_id_by_ids(a, b, id, from + 1);
    }
}

/// Writing a composition into the collection makes its entry equal to it and
/// leaves every other entry, and the place of every entry, as it was.
pub proof fn lemma_synced(list: Seq<CompositionView>, doc: CompositionView)
    ensures
        synced(list, doc).len() == list.len(),
        forall|id: Seq<char>| entry_of(synced(list, doc), id) == entry_of(list, id),
        has_entry(list, doc.id) ==> synced(list, doc)[entry_of(list, doc.id)] == doc,
        forall|k: int|
            0 <= k < list.len() && k != entry_of(list, doc.id) ==> synced(list, doc)[k] == list[k],
{
    lemma_find_id_bounds(list, doc.id, 0);
    assert forall|id: Seq<char>| entry_of(synced(list, doc), id) == entry_of(list, id) by {
        lemma_find_id_by_ids(list, synced(list, doc), id, 0);
    }
}

} // verus!
