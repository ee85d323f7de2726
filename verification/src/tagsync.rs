//! Tag-definition sync (`tags.json`): last-writer-wins by `updated_at`,
//! deletion tombstones that block stale resurrection, and a conservative
//! clean-up of local leftovers.
use vstd::prelude::*;

use crate::query::{text_lt, text_less, lemma_text_lt_total};
use crate::text::str_eq;

verus! {

/// One tag definition as carried by the tag snapshot.
#[derive(Debug, Clone)]
pub struct TagSyncRow {
    pub name: String,
    pub color: String,
    pub is_auto: bool,
    pub updated_at: String,
}

/// Result of applying a remote tag snapshot.
#[derive(Debug, Default, Clone, Copy)]
pub struct TagMergeStats {
    pub added: i32,
    pub changed: i32,
    pub deleted: i32,
}

/// Stamp of legacy rows that were never edited since `updated_at` existed;
/// such rows are never garbage-collected.
pub const TAG_EPOCH_SENTINEL: &'static str = "1970-01-01T00:00:00Z";

/// A local tag definition.
#[derive(Debug, Clone)]
pub struct LocalTag {
    pub id: i64,
    pub name: String,
    pub color: String,
    pub is_auto: bool,
    pub updated_at: String,
}

/// Mathematical value of a tag definition (local or incoming).
pub struct TagView {
    pub name: Seq<char>,
    pub color: Seq<char>,
    pub is_auto: bool,
    pub updated: Seq<char>,
}

impl View for TagSyncRow {
    type V = TagView;

    open spec fn view(&self) -> TagView {
        TagView {
            name: self.name@,
            color: self.color@,
            is_auto: self.is_auto,
            updated: self.updated_at@,
        }
    }
}

/// Mathematical value of a stored tag: its row id and its definition.
pub struct LocalTagView {
    pub id: i64,
    pub def: TagView,
}

impl View for LocalTag {
    type V = LocalTagView;

    open spec fn view(&self) -> LocalTagView {
        LocalTagView {
            id: self.id,
            def: TagView {
                name: self.name@,
                color: self.color@,
                is_auto: self.is_auto,
                updated: self.updated_at@,
            },
        }
    }
}

/// What an incoming tag definition does to the local table.
#[derive(Debug, Clone, Copy, PartialEq, Eq, Structural)]
pub enum IncomingTagAction {
    /// Local is at least as new, or a newer tombstone forbids resurrection.
    Skip,
    /// Local is older: take the incoming color / auto flag and stamp.
    /// `changed` tells whether color or auto flag actually differ.
    Update { changed: bool },
    /// Unknown locally and not deleted after this stamp: add it.
    Insert,
}

pub open spec fn incoming_action_spec(
    local: Option<TagView>,
    t: TagView,
    tombstone: Option<Seq<char>>,
) -> IncomingTagAction {
    match local {
        Some(l) => if !text_lt(l.updated, t.updated) {
            IncomingTagAction::Skip
        } else {
            IncomingTagAction::Update { changed: l.color != t.color || l.is_auto != t.is_auto }
        },
        None => match tombstone {
            Some(d) => if !text_lt(d, t.updated) {
                IncomingTagAction::Skip
            } else {
                IncomingTagAction::Insert
            },
            None => IncomingTagAction::Insert,
        },
    }
}

/// The local definition of `t.name` after the action was applied
/// (`None`: still unknown locally).
pub open spec fn local_after(local: Option<TagView>, t: TagView, a: IncomingTagAction) -> Option<
    TagView,
> {
    match a {
        IncomingTagAction::Skip => local,
        _ => Some(TagView { name: t.name, color: t.color, is_auto: t.is_auto, updated: t.updated }),
    }
}

pub open spec fn opt_tag_view(o: Option<&LocalTag>) -> Option<TagView> {
    match o {
        Some(l) => Some(l@.def),
        None => None,
    }
}

pub open spec fn opt_text_ref(o: Option<&str>) -> Option<Seq<char>> {
    match o {
        Some(s) => Some(s@),
        None => None,
    }
}

/// Last-writer-wins decision for one incoming tag definition.
pub fn incoming_tag_action(local: Option<&LocalTag>, t: &TagSyncRow, tombstone: Option<&str>) -> (r:
    IncomingTagAction)
    ensures
        r == incoming_action_spec(opt_tag_view(local), t@, opt_text_ref(tombstone)),
{
    match local {
        Some(l) => if !text_less(l.updated_at.as_str(), t.updated_at.as_str()) {
            IncomingTagAction::Skip
        } else {
            let changed = !str_eq(l.color.as_str(), t.color.as_str()) || l.is_auto != t.is_auto;
            IncomingTagAction::Update { changed }
        },
        None => match tombstone {
            Some(d) => if !text_less(d, t.updated_at.as_str()) {
                IncomingTagAction::Skip
            } else {
                IncomingTagAction::Insert
            },
            None => IncomingTagAction::Insert,
        },
    }
}

/// An incoming tombstone deletes the local definition unless the local one
/// was edited after the deletion.
pub open spec fn tombstone_deletes_spec(local_updated: Seq<char>, deleted_at: Seq<char>) -> bool {
    !text_lt(deleted_at, local_updated)
}

pub fn tombstone_deletes(local_updated: &str, deleted_at: &str) -> (r: bool)
    ensures
        r == tombstone_deletes_spec(local_updated@, deleted_at@),
{
    !text_less(deleted_at, local_updated)
}

/// A local tag is a clean-up candidate when the snapshot does not know it,
/// it is not a never-edited sentinel row, and it was last touched before the
/// snapshot was written (it is removed only when no record links to it).
pub open spec fn gc_candidate_spec(l: TagView, incoming_names: Seq<Seq<char>>, snapshot: Seq<char>) -> bool {
    &&& !incoming_names.contains(l.name)
    &&& l.updated != TAG_EPOCH_SENTINEL@
    &&& text_lt(l.updated, snapshot)
}

pub open spec fn names_of(rows: Seq<TagSyncRow>) -> Seq<Seq<char>> {
    rows.map_values(|r: TagSyncRow| r.name@)
}

/// Whether `name` is among the incoming rows.
pub fn snapshot_has_name(rows: &[TagSyncRow], name: &str) -> (r: bool)
    ensures
        r == names_of(rows@).contains(name@),
{
    let mut i: usize = 0;
    while i < rows.len()
        invariant
            0 <= i <= rows.len(),
            forall|j: int| 0 <= j < i ==> rows@[j].name@ != name@,
        decreases rows.len() - i,
    {
        if str_eq(rows[i].name.as_str(), name) {
            assert(names_of(rows@)[i as int] == name@);
            return true;
        }
        i = i + 1;
    }
    proof {
        if names_of(rows@).contains(name@) {
            let k = choose|k: int| 0 <= k < names_of(rows@).len() && names_of(rows@)[k] == name@;
            assert(rows@[k].name@ == name@);
        }
    }
    false
}

pub fn gc_candidate(l: &LocalTag, rows: &[TagSyncRow], snapshot: &str) -> (r: bool)
    ensures
        r == gc_candidate_spec(l@.def, names_of(rows@), snapshot@),
{
    !snapshot_has_name(rows, l.name.as_str()) && !str_eq(l.updated_at.as_str(), TAG_EPOCH_SENTINEL)
        && text_less(l.updated_at.as_str(), snapshot)
}

/// Index of the local definition named `name`, if any (the first one).
pub fn find_local_tag(local: &Vec<LocalTag>, name: &str) -> (r: Option<usize>)
    ensures
        match r {
            Some(k) => k < local@.len() && local@[k as int].name@ == name@ && forall|j: int|
                0 <= j < k ==> local@[j].name@ != name@,
            None => forall|j: int| 0 <= j < local@.len() ==> local@[j].name@ != name@,
        },
{
    let mut i: usize = 0;
    while i < local.len()
        invariant
            0 <= i <= local.len(),
            forall|j: int| 0 <= j < i ==> local@[j].name@ != name@,
        decreases local.len() - i,
    {
        if str_eq(local[i].name.as_str(), name) {
            return Some(i);
        }
        i = i + 1;
    }
    None
}

/// Applying the same incoming definition a second time is a no-op, so a
/// re-merge of the same snapshot changes nothing.
pub proof fn lemma_remerge_is_noop(local: Option<TagView>, t: TagView, tombstone: Option<Seq<char>>)
    ensures
        incoming_action_spec(
            local_after(local, t, incoming_action_spec(local, t, tombstone)),
            t,
            tombstone,
        ) == IncomingTagAction::Skip,
{
    lemma_text_lt_total(t.updated, t.updated);
}

/// Last writer wins: an incoming definition that is not newer than the
/// local one never changes it.
pub proof fn lemma_older_incoming_is_ignored(l: TagView, t: TagView, tombstone: Option<Seq<char>>)
    requires
        !text_lt(l.updated, t.updated),
    ensures
        incoming_action_spec(Some(l), t, tombstone) == IncomingTagAction::Skip,
        local_after(Some(l), t, incoming_action_spec(Some(l), t, tombstone)) == Some(l),
{
}

/// A tombstone at or after an incoming stamp blocks resurrection of a tag
/// deleted locally.
pub proof fn lemma_tombstone_blocks_resurrection(t: TagView, deleted_at: Seq<char>)
    requires
        !text_lt(deleted_at, t.updated),
    ensures
        incoming_action_spec(None, t, Some(deleted_at)) == IncomingTagAction::Skip,
{
}

/// A local edit made after a remote deletion survives that deletion.
pub proof fn lemma_local_edit_wins(local_updated: Seq<char>, deleted_at: Seq<char>)
    requires
        text_lt(deleted_at, local_updated),
    ensures
        !tombstone_deletes_spec(local_updated, deleted_at),
{
}

/// The clean-up never removes a tag the snapshot carries, nor a
/// never-edited sentinel row.
pub proof fn lemma_gc_spares_known_and_sentinel(l: TagView, rows: Seq<TagSyncRow>, snapshot: Seq<char>)
    ensures
        names_of(rows).contains(l.name) ==> !gc_candidate_spec(l, names_of(rows), snapshot),
        l.updated == TAG_EPOCH_SENTINEL@ ==> !gc_candidate_spec(l, names_of(rows), snapshot),
{
}

/// A record snapshot stamped `stamp` may not link tag `name` when the tag
/// was deleted at or after that stamp: the deletion is newer news.
pub open spec fn blocked_by_tombstone(name: Seq<char>, tombstones: Seq<(String, String)>, stamp: Seq<
    char,
>) -> bool {
    exists|k: int|
        0 <= k < tombstones.len() && (#[trigger] tombstones[k]).0@ == name && !text_lt(
            tombstones[k].1@,
            stamp,
        )
}

/// The first `n` names that no tombstone blocks, in order.
pub open spec fn unblocked_upto(names: Seq<Seq<char>>, tombstones: Seq<(String, String)>, stamp: Seq<
    char,
>, n: int) -> Seq<Seq<char>>
    decreases n,
{
    if n <= 0 || n > names.len() {
        Seq::empty()
    } else if blocked_by_tombstone(names[n - 1], tombstones, stamp) {
        unblocked_upto(names, tombstones, stamp, n - 1)
    } else {
        unblocked_upto(names, tombstones, stamp, n - 1).push(names[n - 1])
    }
}

/// Whether some tombstone blocks `name` for a snapshot stamped `stamp`.
pub fn is_blocked_by_tombstone(name: &str, tombstones: &Vec<(String, String)>, stamp: &str) -> (r:
    bool)
    ensures
        r == blocked_by_tombstone(name@, tombstones@, stamp@),
{
    let mut k: usize = 0;
    while k < tombstones.len()
        invariant
            0 <= k <= tombstones.len(),
            forall|j: int|
                0 <= j < k ==> !((#[trigger] tombstones@[j]).0@ == name@ && !text_lt(
                    tombstones@[j].1@,
                    stamp@,
                )),
        decreases tombstones.len() - k,
    {
        if str_eq(tombstones[k].0.as_str(), name) && !text_less(tombstones[k].1.as_str(), stamp) {
            return true;
        }
        k = k + 1;
    }
    false
}

/// The names a snapshot stamped `stamp` may link: those no tombstone at or
/// after the stamp blocks, in order.
pub fn names_not_tombstoned(names: &Vec<String>, tombstones: &Vec<(String, String)>, stamp: &str) -> (r:
    Vec<String>)
    ensures
        r@.len() <= names@.len(),
        forall|i: int| 0 <= i < r@.len() ==> #[trigger] r@[i]@ == unblocked_upto(
            names@.map_values(|s: String| s@),
            tombstones@,
            stamp@,
            names@.len() as int,
        )[i],
        unblocked_upto(names@.map_values(|s: String| s@), tombstones@, stamp@, names@.len() as int).len()
            == r@.len(),
{
    let ghost nv = names@.map_values(|s: String| s@);
    let mut out: Vec<String> = Vec::new();
    let mut i: usize = 0;
    while i < names.len()
        invariant
            0 <= i <= names.len(),
            nv == names@.map_values(|s: String| s@),
            out@.len() <= i,
            unblocked_upto(nv, tombstones@, stamp@, i as int).len() == out@.len(),
            forall|j: int| 0 <= j < out@.len() ==> #[trigger] out@[j]@ == unblocked_upto(
                nv,
                tombstones@,
                stamp@,
                i as int,
            )[j],
        decreases names.len() - i,
    {
        proof {
            assert(nv[i as int] == names@[i as int]@);
        }
        if !is_blocked_by_tombstone(names[i].as_str(), tombstones, stamp) {
            out.push(names[i].clone());
        }
        i = i + 1;
    }
    out
}

} // verus!
