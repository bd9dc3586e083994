//! What holds of every registry, whatever happens to it.

use crate::clock::Timestamp;
use crate::models::{CompositionView, FolderView};
use crate::registry_model::{
    edited, entry_of, find_id, has_entry, joined, lemma_find_id_bounds, lemma_find_id_by_ids,
    lemma_synced, EditView, RegistryEvent, RegistryView,
};
use vstd::prelude::*;

verus! {

/// Switching loses no edit. Where the open composition has an entry, even
/// one that is out of date, opening any identity first writes the open
/// composition into that entry; afterwards the entry equals it, and the
/// composition that is then open mirrors its own entry.
pub proof fn lemma_opened_mirrors(r: RegistryView, id: Seq<char>)
    requires
        r.active matches Some(a) ==> has_entry(r.compositions, a.id),
    ensures
        r.opened(id).mirrored(),
        r.opened(id).compositions.len() == r.compositions.len(),
        r.active matches Some(a) ==> r.opened(id).compositions[entry_of(r.compositions, a.id)]
            == a && entry_of(r.opened(id).compositions, a.id) == entry_of(r.compositions, a.id),
        has_entry(r.compositions, id) ==> r.opened(id).active is Some && r.opened(id).active->0.id
            == id,
        !has_entry(r.compositions, id) ==> r.opened(id).active == r.active,
{
    let list = r.merged();
    lemma_find_id_bounds(list, id, 0);
    lemma_find_id_bounds(r.compositions, id, 0);
    if let Some(a) = r.active {
        lemma_synced(r.compositions, a);
        lemma_find_id_bounds(r.compositions, a.id, 0);
        lemma_find_id_bounds(list, a.id, 0);
    }
}

/// Replacing the open composition writes it into the collection: afterwards
/// it mirrors its entry, if it had one.
pub proof fn lemma_with_active_mirrors(r: RegistryView, doc: CompositionView)
    requires
        has_entry(r.compositions, doc.id),
    ensures
        r.with_active(doc).mirrored(),
{
    lemma_synced(r.compositions, doc);
}

/// An edit keeps the open composition mirroring its entry.
pub proof fn lemma_mutated_mirrors(r: RegistryView, edit: EditView, now: Timestamp)
    requires
        r.mirrored(),
    ensures
        r.mutated(edit, now).mirrored(),
{
    if let Some(a) = r.active {
        lemma_with_active_mirrors(r, edited(a, edit, now));
    }
}

/// Archiving keeps the open composition mirroring its entry.
pub proof fn lemma_archived_mirrors(r: RegistryView, now: Timestamp)
    requires
        r.mirrored(),
    ensures
        r.archived_active(now).mirrored(),
{
    if let Some(a) = r.active {
        lemma_with_active_mirrors(r, CompositionView { archived: true, ..a }.touched(now));
    }
}

/// Replacing an entry by a composition of the same identity keeps the open
/// composition mirroring its entry.
pub proof fn lemma_with_entry_mirrors(r: RegistryView, i: int, doc: CompositionView)
    requires
        r.mirrored(),
        0 <= i < r.compositions.len(),
        i == entry_of(r.compositions, doc.id),
    ensures
        r.with_entry(i, doc).mirrored(),
{
    lemma_find_id_bounds(r.compositions, doc.id, 0);
    let after = r.compositions.update(i, doc);
    if let Some(a) = r.active {
        lemma_find_id_by_ids(r.compositions, after, a.id, 0);
        lemma_find_id_bounds(r.compositions, a.id, 0);
    }
}

/// Restoring keeps the open composition mirroring its entry.
pub proof fn lemma_restored_mirrors(r: RegistryView, id: Seq<char>, now: Timestamp)
    requires
        r.mirrored(),
    ensures
        r.restored(id, now).mirrored(),
{
    lemma_find_id_bounds(r.compositions, id, 0);
    if has_entry(r.compositions, id) {
        let i = entry_of(r.compositions, id);
        lemma_with_entry_mirrors(
            r,
            i,
            CompositionView { archived: false, ..r.compositions[i] }.touched(now),
        );
    }
}

/// Moving keeps the open composition mirroring its entry.
pub proof fn lemma_moved_mirrors(r: RegistryView, id: Seq<char>, folder: Option<Seq<char>>, now: Timestamp)
    requires
        r.mirrored(),
    ensures
        r.moved(id, folder, now).mirrored(),
{
    lemma_find_id_bounds(r.compositions, id, 0);
    if has_entry(r.compositions, id) {
        let i = entry_of(r.compositions, id);
        lemma_with_entry_mirrors(
            r,
            i,
            CompositionView { folder_id: folder, ..r.compositions[i] }.touched(now),
        );
    }
}


/// A composition put at the end and opened mirrors its entry if no entry
/// had its identity before.
pub proof fn lemma_adopted_mirrors(r: RegistryView, doc: CompositionView)
    ensures
        !has_entry(r.merged(), doc.id) ==> r.adopted(doc).mirrored(),
{
    let list = r.merged();
    if !has_entry(list, doc.id) {
        lemma_find_id_bounds(list, doc.id, 0);
        lemma_find_id_pushed(list, doc, doc.id, 0);
    }
}

/// An entry put at the end changes the place of no entry; its own place
/// is the end if no entry had its identity before.
pub proof fn lemma_find_id_pushed(list: Seq<CompositionView>, doc: CompositionView, id: Seq<char>, from: int)
    requires
        0 <= from <= list.len(),
    ensures
        find_id(list, id, from) < list.len() ==> find_id(list.push(doc), id, from) == find_id(
            list,
            id,
            from,
        ),
        find_id(list, id, from) >= list.len() && doc.id == id ==> find_id(list.push(doc), id, from)
            == list.len(),
    decreases list.len() - from,
{
    if from < list.len() && list[from].id != id {
        lemma_find_id_pushed(list, doc, id, from + 1);
    }
}

/// An entry put at the head moves every other entry one place on.
pub proof fn lemma_find_id_shifted(list: Seq<CompositionView>, doc: CompositionView, id: Seq<char>, from: int)
    requires
        0 <= from <= list.len(),
    ensures
        find_id(seq![doc] + list, id, from + 1) == find_id(list, id, from) + 1,
    decreases list.len() - from,
{
    let longer = seq![doc] + list;
    if from < list.len() {
        assert(longer[from + 1] == list[from]);
        if list[from].id != id {
            lemma_find_id_shifted(list, doc, id, from + 1);
        }
    }
}

/// No event removes a composition, and every event keeps the open
/// composition mirroring its entry: each identity that had an entry has
/// one afterwards, and the collection has not shrunk.
pub proof fn lemma_step_keeps_entries(r: RegistryView, event: RegistryEvent)
    requires
        r.mirrored(),
    ensures
        r.step(event).mirrored(),
        r.step(event).compositions.len() >= r.compositions.len(),
        forall|id: Seq<char>|
            has_entry(r.compositions, id) ==> #[trigger] has_entry(r.step(event).compositions, id),
{
    let after = r.step(event);
    if let Some(a) = r.active {
        lemma_synced(r.compositions, a);
    }
    match event {
        RegistryEvent::Open(id) => {
            lemma_opened_mirrors(r, id);
        },
        RegistryEvent::Edit(edit, now) => {
            lemma_mutated_mirrors(r, edit, now);
            if let Some(a) = r.active {
                lemma_synced(r.compositions, edited(a, edit, now));
            }
        },
        RegistryEvent::Insert(doc) => {
            assert forall|id: Seq<char>| has_entry(r.compositions, id) implies #[trigger] has_entry(
                after.compositions,
                id,
            ) by {
                lemma_find_id_shifted(r.merged(), doc, id, 0);
            }
        },
        RegistryEvent::Archive(now) => {
            lemma_archived_mirrors(r, now);
            if let Some(a) = r.active {
                lemma_synced(r.compositions, CompositionView { archived: true, ..a }.touched(now));
            }
        },
        RegistryEvent::Restore(id, now) => {
            lemma_restored_mirrors(r, id, now);
            lemma_find_id_bounds(r.compositions, id, 0);
            assert forall|x: Seq<char>| has_entry(r.compositions, x) implies #[trigger] has_entry(
                after.compositions,
                x,
            ) by {
                lemma_find_id_by_ids(r.compositions, after.compositions, x, 0);
            }
        },
        RegistryEvent::Move(id, folder, now) => {
            lemma_moved_mirrors(r, id, folder, now);
            lemma_find_id_bounds(r.compositions, id, 0);
            assert forall|x: Seq<char>| has_entry(r.compositions, x) implies #[trigger] has_entry(
                after.compositions,
                x,
            ) by {
                lemma_find_id_by_ids(r.compositions, after.compositions, x, 0);
            }
        },
        RegistryEvent::Append(id, text, now) => {
            lemma_find_id_bounds(r.compositions, id, 0);
            if has_entry(r.compositions, id) {
                let i = entry_of(r.compositions, id);
                lemma_with_entry_mirrors(
                    r,
                    i,
                    CompositionView {
                        content: joined(r.compositions[i].content, text),
                        ..r.compositions[i]
                    }.recounted().touched(now),
                );
            }
            assert forall|x: Seq<char>| has_entry(r.compositions, x) implies #[trigger] has_entry(
                after.compositions,
                x,
            ) by {
                lemma_find_id_by_ids(r.compositions, after.compositions, x, 0);
            }
        },
        RegistryEvent::AddFolder(f) => {},
        RegistryEvent::ToggleFolder(id) => {},
        RegistryEvent::RenameFolder(id, name) => {},
        RegistryEvent::DeleteFolder(id) => {
            lemma_folder_deleted_keeps(r, id);
            assert forall|x: Seq<char>| has_entry(r.compositions, x) implies #[trigger] has_entry(
                after.compositions,
                x,
            ) by {
                lemma_find_id_by_ids(r.compositions, after.compositions, x, 0);
            }
        },
    }
}

/// The registry's invariant: whatever happens to it, in whatever order, the
/// open composition mirrors its entry, no composition is removed, and the
/// collection never shrinks.
pub proof fn lemma_run_keeps_entries(r: RegistryView, events: Seq<RegistryEvent>)
    requires
        r.mirrored(),
    ensures
        r.run(events).mirrored(),
        r.run(events).compositions.len() >= r.compositions.len(),
        forall|id: Seq<char>|
            has_entry(r.compositions, id) ==> #[trigger] has_entry(r.run(events).compositions, id),
    decreases events.len(),
{
    if events.len() > 0 {
        lemma_step_keeps_entries(r, events[0]);
        lemma_run_keeps_entries(r.step(events[0]), events.drop_first());
    }
}

/// Deleting a folder deletes no composition. The collection keeps its
/// length and order; every composition keeps its identity, its text, its
/// notes, its times and its archived flag; it loses its folder reference if
/// and only if that named the deleted folder; no folder with that identity
/// is left, and the open composition still mirrors its entry.
pub proof fn lemma_folder_deleted_keeps(r: RegistryView, folder: Seq<char>)
    requires
        r.mirrored(),
    ensures
        ({
            let after = r.folder_deleted(folder);
            &&& after.mirrored()
            &&& after.compositions.len() == r.compositions.len()
            &&& forall|i: int|
                0 <= i < r.compositions.len() ==> #[trigger] after.compositions[i] == (
                CompositionView {
                    folder_id: after.compositions[i].folder_id,
                    ..r.compositions[i]
                }) && after.compositions[i].folder_id == if r.compositions[i].folder_id == Some(
                    folder,
                ) {
                    None
                } else {
                    r.compositions[i].folder_id
                }
            &&& forall|i: int|
                0 <= i < after.compositions.len() ==> #[trigger] after.compositions[i].folder_id
                    != Some(folder)
            &&& forall|j: int|
                0 <= j < after.folders.len() ==> #[trigger] after.folders[j].id != folder
        }),
{
    let after = r.folder_deleted(folder);
    let keep = |f: FolderView| f.id != folder;
    assert forall|j: int| 0 <= j < after.folders.len() implies #[trigger] after.folders[j].id
        != folder by {
        r.folders.lemma_filter_pred(keep, j);
    }
    if let Some(a) = r.active {
        lemma_find_id_by_ids(r.compositions, after.compositions, a.id, 0);
        lemma_find_id_bounds(r.compositions, a.id, 0);
    }
}

/// No staleness: on a registry whose open composition mirrors its entry,
/// after every one of any sequence of edits the entry of the open
/// composition equals the open composition, and the collection has neither
/// grown nor shrunk.
pub proof fn lemma_edits_never_stale(r: RegistryView, edits: Seq<(EditView, Timestamp)>)
    requires
        r.mirrored(),
    ensures
        r.after_edits(edits).mirrored(),
        r.after_edits(edits).compositions.len() == r.compositions.len(),
        r.active is Some ==> r.after_edits(edits).active is Some && r.after_edits(
            edits,
        ).active->0.id == r.active->0.id && r.after_edits(edits).active->0.updated_at.at_or_after(
            r.active->0.updated_at,
        ),
        r.active is None ==> r.after_edits(edits) == r,
    decreases edits.len(),
{
    if edits.len() > 0 {
        let next = r.mutated(edits[0].0, edits[0].1);
        lemma_mutated_mirrors(r, edits[0].0, edits[0].1);
        if let Some(a) = r.active {
            lemma_synced(r.compositions, edited(a, edits[0].0, edits[0].1));
        }
        lemma_edits_never_stale(next, edits.drop_first());
    }
}

} // verus!
