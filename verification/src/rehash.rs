//! One-shot re-derivation of text-record identities: every text row is
//! re-hashed as sha256(sha256(content)); rows that now share a hash are
//! merged into one survivor (active first, then most recently updated,
//! then highest id), which takes the favorite / pin flags and the copy
//! counts of the active rows it absorbs.
use vstd::prelude::*;

use std::collections::HashMap;

use crate::content::{sha256_hex, text_record_hash};
use crate::db::{flag_done, ClipboardDb};
use crate::query::{id_placeholders, text_less, text_lt, lemma_text_lt_total, SqlParam};
use crate::records::{cell_bool, cell_i32, cell_int, cell_text, read_bool, read_i32, read_int, read_text};
use crate::sqlite::{exec, query, DbError, SqlCell};
use crate::text::str_eq;

verus! {

/// A text row before its identity is re-derived.
#[derive(Debug, Clone)]
pub struct LegacyHashRow {
    pub id: i64,
    pub is_favorite: bool,
    pub is_pinned: bool,
    pub copy_count: i32,
    pub alias: String,
    pub is_trashed: bool,
    pub updated_at: String,
}

/// `a` survives before `b`: active before trashed, then newer `updated_at`,
/// then higher id.
pub open spec fn ranks_before(a: LegacyHashRow, b: LegacyHashRow) -> bool {
    (!a.is_trashed && b.is_trashed) || (a.is_trashed == b.is_trashed && (text_lt(
        b.updated_at@,
        a.updated_at@,
    ) || (a.updated_at@ == b.updated_at@ && a.id > b.id)))
}

pub fn ranks_before_exec(a: &LegacyHashRow, b: &LegacyHashRow) -> (r: bool)
    ensures
        r == ranks_before(*a, *b),
{
    (!a.is_trashed && b.is_trashed) || (a.is_trashed == b.is_trashed && (text_less(
        b.updated_at.as_str(),
        a.updated_at.as_str(),
    ) || (str_eq(a.updated_at.as_str(), b.updated_at.as_str()) && a.id > b.id)))
}

/// Index of the survivor of a non-empty group: no row ranks before it.
pub fn survivor_index(group: &Vec<LegacyHashRow>) -> (w: usize)
    requires
        group@.len() > 0,
    ensures
        w < group@.len(),
        forall|j: int| 0 <= j < group@.len() ==> !ranks_before(#[trigger] group@[j], group@[w as int]),
{
    let mut best: usize = 0;
    let mut i: usize = 1;
    proof {
        lemma_ranks_irreflexive(group@[0]);
    }
    while i < group.len()
        invariant
            1 <= i <= group.len(),
            best < i,
            forall|j: int| 0 <= j < i ==> !ranks_before(#[trigger] group@[j], group@[best as int]),
        decreases group.len() - i,
    {
        if ranks_before_exec(&group[i], &group[best]) {
            proof {
                let b = group@[best as int];
                let c = group@[i as int];
                assert forall|j: int| 0 <= j < i + 1 implies !ranks_before(#[trigger] group@[j], c) by {
                    if j < i {
                        lemma_ranks_transitive(group@[j], c, b);
                    } else {
                        lemma_ranks_irreflexive(c);
                    }
                }
            }
            best = i;
        } else {
            proof {
                lemma_ranks_irreflexive(group@[best as int]);
            }
        }
        i = i + 1;
    }
    best
}

proof fn lemma_ranks_irreflexive(a: LegacyHashRow)
    ensures
        !ranks_before(a, a),
{
    lemma_text_lt_total(a.updated_at@, a.updated_at@);
}

/// If `a` ranks before `b` and `b` before `c`, then `a` before `c`
/// (contrapositive form used for the survivor search).
proof fn lemma_ranks_transitive(a: LegacyHashRow, b: LegacyHashRow, c: LegacyHashRow)
    requires
        ranks_before(b, c),
        !ranks_before(a, c),
    ensures
        !ranks_before(a, b),
{
    lemma_text_lt_total(a.updated_at@, b.updated_at@);
    lemma_text_lt_total(b.updated_at@, c.updated_at@);
    lemma_text_lt_total(a.updated_at@, c.updated_at@);
    crate::query::lemma_text_lt_transitive(c.updated_at@, b.updated_at@, a.updated_at@);
}

/// Sum of the copy counts of active rows other than `w`, among the first `n`.
pub open spec fn absorbed_count(group: Seq<LegacyHashRow>, w: int, n: int) -> int
    decreases n,
{
    if n <= 0 || n > group.len() {
        0
    } else {
        absorbed_count(group, w, n - 1) + if n - 1 != w && !group[n - 1].is_trashed {
            group[n - 1].copy_count as int
        } else {
            0
        }
    }
}

/// Some active row other than `w`, among the first `n`, has the flag.
pub open spec fn absorbed_fav(group: Seq<LegacyHashRow>, w: int, n: int) -> bool {
    exists|j: int| 0 <= j < n && j != w && !group[j].is_trashed && (#[trigger] group[j]).is_favorite
}

pub open spec fn absorbed_pin(group: Seq<LegacyHashRow>, w: int, n: int) -> bool {
    exists|j: int| 0 <= j < n && j != w && !group[j].is_trashed && (#[trigger] group[j]).is_pinned
}

/// The survivor and what it absorbs.
#[derive(Debug, Clone)]
pub struct FoldedGroup {
    pub winner_id: i64,
    pub is_favorite: bool,
    pub is_pinned: bool,
    pub copy_count: i64,
    pub alias: String,
    pub loser_ids: Vec<i64>,
}

/// Fold a group of rows that share a re-derived hash into its survivor:
/// favorite / pin OR'd and copy counts summed over the survivor and the
/// active rows it absorbs, the survivor's alias kept (else the alias of the
/// best-ranked active row that has one); every other row is a loser.
pub fn fold_group_into_winner(group: &Vec<LegacyHashRow>) -> (r: FoldedGroup)
    requires
        group@.len() > 0,
        group@.len() <= u32::MAX,
    ensures
        exists|w: int|
            #![trigger group@[w]]
            0 <= w < group@.len() && {
                &&& forall|j: int| 0 <= j < group@.len() ==> !ranks_before(#[trigger] group@[j], group@[w])
                &&& r.winner_id == group@[w].id
                &&& r.is_favorite == (group@[w].is_favorite || absorbed_fav(group@, w, group@.len() as int))
                &&& r.is_pinned == (group@[w].is_pinned || absorbed_pin(group@, w, group@.len() as int))
                &&& r.copy_count == group@[w].copy_count + absorbed_count(group@, w, group@.len() as int)
                &&& r.loser_ids@.len() == group@.len() - 1
            },
{
    let w = survivor_index(group);
    let mut fav = group[w].is_favorite;
    let mut pin = group[w].is_pinned;
    let mut count: i64 = group[w].copy_count as i64;
    let mut losers: Vec<i64> = Vec::new();
    let mut alias_from: Option<usize> = None;
    let mut i: usize = 0;
    while i < group.len()
        invariant
            0 <= i <= group.len(),
            w < group@.len(),
            group@.len() <= u32::MAX,
            fav == (group@[w as int].is_favorite || absorbed_fav(group@, w as int, i as int)),
            pin == (group@[w as int].is_pinned || absorbed_pin(group@, w as int, i as int)),
            count == group@[w as int].copy_count + absorbed_count(group@, w as int, i as int),
            i32::MIN * (i as int + 1) <= count <= i32::MAX * (i as int + 1),
            losers@.len() == if i > w { i - 1 } else { i as int },
            alias_from matches Some(a) ==> a < group@.len(),
        decreases group.len() - i,
    {
        if i != w {
            losers.push(group[i].id);
            if !group[i].is_trashed {
                fav = fav || group[i].is_favorite;
                pin = pin || group[i].is_pinned;
                count = count + group[i].copy_count as i64;
                if !group[i].alias.as_str().is_empty() {
                    alias_from = match alias_from {
                        None => Some(i),
                        Some(a) => if ranks_before_exec(&group[i], &group[a]) {
                            Some(i)
                        } else {
                            Some(a)
                        },
                    };
                }
            }
        }
        proof {
            assert(fav == (group@[w as int].is_favorite || absorbed_fav(group@, w as int, i + 1))) by {
                if absorbed_fav(group@, w as int, i + 1) && !absorbed_fav(group@, w as int, i as int) {
                    let j = choose|j: int|
                        0 <= j < i + 1 && j != w && !group@[j].is_trashed && (#[trigger] group@[j]).is_favorite;
                    assert(j == i);
                }
                if absorbed_fav(group@, w as int, i as int) {
                    let j = choose|j: int|
                        0 <= j < i && j != w && !group@[j].is_trashed && (#[trigger] group@[j]).is_favorite;
                    assert(0 <= j < i + 1);
                }
            }
            assert(pin == (group@[w as int].is_pinned || absorbed_pin(group@, w as int, i + 1))) by {
                if absorbed_pin(group@, w as int, i + 1) && !absorbed_pin(group@, w as int, i as int) {
                    let j = choose|j: int|
                        0 <= j < i + 1 && j != w && !group@[j].is_trashed && (#[trigger] group@[j]).is_pinned;
                    assert(j == i);
                }
                if absorbed_pin(group@, w as int, i as int) {
                    let j = choose|j: int|
                        0 <= j < i && j != w && !group@[j].is_trashed && (#[trigger] group@[j]).is_pinned;
                    assert(0 <= j < i + 1);
                }
            }
        }
        i = i + 1;
    }
    let alias = if !group[w].alias.as_str().is_empty() {
        group[w].alias.clone()
    } else {
        match alias_from {
            Some(a) => group[a].alias.clone(),
            None => String::new(),
        }
    };
    FoldedGroup {
        winner_id: group[w].id,
        is_favorite: fav,
        is_pinned: pin,
        copy_count: count,
        alias,
        loser_ids: losers,
    }
}

/// Whether `c` is an `(id, content, is_favorite, is_pinned, copy_count,
/// alias, is_trashed, updated_at)` row.
pub open spec fn legacy_row_ok(c: Seq<SqlCell>) -> bool {
    &&& c.len() >= 8
    &&& cell_int(c[0]) is Some
    &&& cell_text(c[1]) is Some
    &&& cell_bool(c[2]) is Some
    &&& cell_bool(c[3]) is Some
    &&& cell_i32(c[4]) is Some
    &&& cell_text(c[5]) is Some
    &&& cell_bool(c[6]) is Some
    &&& cell_text(c[7]) is Some
}

/// A text row with its re-derived hash; `None` when a column has another type.
fn legacy_row(c: &Vec<SqlCell>) -> (r: Option<(String, LegacyHashRow)>)
    ensures
        r is Some <==> legacy_row_ok(c@),
        r matches Some((h, row)) ==> {
            &&& cell_text(c@[1]) matches Some(content) && h@ == sha256_hex(sha256_hex(content))
            &&& cell_int(c@[0]) == Some(row.id)
            &&& cell_bool(c@[2]) == Some(row.is_favorite)
            &&& cell_bool(c@[3]) == Some(row.is_pinned)
            &&& cell_i32(c@[4]) == Some(row.copy_count)
            &&& cell_text(c@[5]) == Some(row.alias@)
            &&& cell_bool(c@[6]) == Some(row.is_trashed)
            &&& cell_text(c@[7]) == Some(row.updated_at@)
        },
{
    if c.len() < 8 {
        return None;
    }
    let id = match read_int(&c[0]) { Some(v) => v, None => { return None; } };
    let content = match read_text(&c[1]) { Some(v) => v, None => { return None; } };
    let is_favorite = match read_bool(&c[2]) { Some(v) => v, None => { return None; } };
    let is_pinned = match read_bool(&c[3]) { Some(v) => v, None => { return None; } };
    let copy_count = match read_i32(&c[4]) { Some(v) => v, None => { return None; } };
    let alias = match read_text(&c[5]) { Some(v) => v, None => { return None; } };
    let is_trashed = match read_bool(&c[6]) { Some(v) => v, None => { return None; } };
    let updated_at = match read_text(&c[7]) { Some(v) => v, None => { return None; } };
    Some(
        (
            text_record_hash(content.as_str()),
            LegacyHashRow { id, is_favorite, is_pinned, copy_count, alias, is_trashed, updated_at },
        ),
    )
}

/// A copy of `r`.
fn copy_row(r: &LegacyHashRow) -> (c: LegacyHashRow)
    ensures
        c == *r,
{
    LegacyHashRow {
        id: r.id,
        is_favorite: r.is_favorite,
        is_pinned: r.is_pinned,
        copy_count: r.copy_count,
        alias: r.alias.clone(),
        is_trashed: r.is_trashed,
        updated_at: r.updated_at.clone(),
    }
}

/// Input item `i` sits at `(k, j)` of the groups: under its own hash.
pub open spec fn placed_at(
    rows: Seq<(String, LegacyHashRow)>,
    groups: Seq<(String, Vec<LegacyHashRow>)>,
    i: int,
    k: int,
    j: int,
) -> bool {
    &&& 0 <= k < groups.len()
    &&& 0 <= j < groups[k].1@.len()
    &&& groups[k].0@ == rows[i].0@
    &&& groups[k].1@[j] == rows[i].1
}

/// Input item `i` sits in some group under its own hash.
pub open spec fn is_placed(
    rows: Seq<(String, LegacyHashRow)>,
    groups: Seq<(String, Vec<LegacyHashRow>)>,
    i: int,
) -> bool {
    exists|k: int, j: int| #[trigger] placed_at(rows, groups, i, k, j)
}

/// Grouped row `(k, j)` is some input item carrying the group's hash.
pub open spec fn has_origin(
    rows: Seq<(String, LegacyHashRow)>,
    groups: Seq<(String, Vec<LegacyHashRow>)>,
    k: int,
    j: int,
) -> bool {
    exists|i: int| 0 <= i < rows.len() && #[trigger] placed_at(rows, groups, i, k, j)
}

/// Groups of rows by re-derived hash, in first-appearance order: every
/// input row lands in a group under its own hash, in input order within the
/// group, and every grouped row is an input row carrying the group's hash.
pub fn group_by_hash(rows: Vec<(String, LegacyHashRow)>) -> (r: Vec<(String, Vec<LegacyHashRow>)>)
    ensures
        forall|k: int| 0 <= k < r@.len() ==> (#[trigger] r@[k]).1@.len() > 0,
        forall|i: int| 0 <= i < rows@.len() ==> #[trigger] is_placed(rows@, r@, i),
        forall|k: int, j: int|
            0 <= k < r@.len() && 0 <= j < r@[k].1@.len() ==> #[trigger] has_origin(rows@, r@, k, j),
{
    let mut groups: Vec<(String, Vec<LegacyHashRow>)> = Vec::new();
    let mut index: HashMap<String, usize> = HashMap::new();
    let ghost mut origin: Seq<Seq<int>> = Seq::empty();
    let mut i: usize = 0;
    while i < rows.len()
        invariant
            0 <= i <= rows.len(),
            origin.len() == groups@.len(),
            forall|k: int| 0 <= k < groups@.len() ==> (#[trigger] groups@[k]).1@.len() > 0,
            forall|k: int| 0 <= k < groups@.len() ==> (#[trigger] origin[k]).len() == groups@[k].1@.len(),
            forall|k: int, j: int|
                0 <= k < groups@.len() && 0 <= j < groups@[k].1@.len() ==> 0 <= #[trigger] origin[k][j] < i
                    && placed_at(rows@, groups@, origin[k][j], k, j),
            forall|q: int| 0 <= q < i ==> #[trigger] is_placed(rows@, groups@, q),
        decreases rows.len() - i,
    {
        let hash = rows[i].0.clone();
        let row = copy_row(&rows[i].1);
        let found: Option<usize> = match index.get(&hash) {
            Some(k) => {
                let k = *k;
                if k < groups.len() && str_eq(groups[k].0.as_str(), hash.as_str()) {
                    Some(k)
                } else {
                    None
                }
            },
            None => None,
        };
        let ghost old_groups = groups@;
        match found {
            Some(k) => {
                let (h, mut g) = groups.remove(k);
                g.push(row);
                groups.insert(k, (h, g));
                proof {
                    assert(groups@ =~= old_groups.update(k as int, groups@[k as int]));
                    origin = origin.update(k as int, origin[k as int].push(i as int));
                    assert forall|q: int| 0 <= q < i + 1 implies #[trigger] is_placed(rows@, groups@, q) by {
                        if q < i {
                            assert(is_placed(rows@, old_groups, q));
                            let (kk, jj) = choose|kk: int, jj: int| placed_at(rows@, old_groups, q, kk, jj);
                            if kk == k {
                                assert(groups@[kk].1@[jj] == old_groups[kk].1@[jj]);
                            }
                            assert(placed_at(rows@, groups@, q, kk, jj));
                        } else {
                            assert(placed_at(rows@, groups@, q, k as int, old_groups[k as int].1@.len() as int));
                        }
                    }
                    assert forall|kk: int, jj: int|
                        0 <= kk < groups@.len() && 0 <= jj < groups@[kk].1@.len() implies 0
                            <= #[trigger] origin[kk][jj] < i + 1 && placed_at(rows@, groups@, origin[kk][jj], kk, jj) by {
                        if kk == k && jj < old_groups[kk].1@.len() {
                            assert(groups@[kk].1@[jj] == old_groups[kk].1@[jj]);
                        }
                    }
                }
            },
            None => {
                let mut g: Vec<LegacyHashRow> = Vec::new();
                g.push(row);
                index.insert(hash.clone(), groups.len());
                groups.push((hash, g));
                proof {
                    origin = origin.push(seq![i as int]);
                    assert forall|q: int| 0 <= q < i + 1 implies #[trigger] is_placed(rows@, groups@, q) by {
                        if q < i {
                            assert(is_placed(rows@, old_groups, q));
                            let (kk, jj) = choose|kk: int, jj: int| placed_at(rows@, old_groups, q, kk, jj);
                            assert(groups@[kk] == old_groups[kk]);
                            assert(placed_at(rows@, groups@, q, kk, jj));
                        } else {
                            assert(placed_at(rows@, groups@, q, old_groups.len() as int, 0));
                        }
                    }
                    assert forall|kk: int, jj: int|
                        0 <= kk < groups@.len() && 0 <= jj < groups@[kk].1@.len() implies 0
                            <= #[trigger] origin[kk][jj] < i + 1 && placed_at(rows@, groups@, origin[kk][jj], kk, jj) by {
                        if kk < old_groups.len() {
                            assert(groups@[kk] == old_groups[kk]);
                        }
                    }
                }
            },
        }
        i = i + 1;
    }
    proof {
        assert forall|k: int, j: int|
            0 <= k < groups@.len() && 0 <= j < groups@[k].1@.len() implies #[trigger] has_origin(
                rows@,
                groups@,
                k,
                j,
            ) by {
            assert(placed_at(rows@, groups@, origin[k][j], k, j));
        }
    }
    groups
}

impl ClipboardDb {
    /// One-shot (`text_hash_v2`): re-derive text-record hashes from content
    /// and merge the rows that collide.
    pub fn migrate_text_hash_v2(conn: &rusqlite::Connection) -> (r: Result<(), DbError>) {
        if flag_done(conn, "text_hash_v2") {
            return Ok(());
        }
        let rows = query(
            conn,
            "SELECT id, content, is_favorite, is_pinned, copy_count, alias, is_trashed, updated_at
             FROM records
             WHERE content_type != 'image' AND media_path IS NULL",
            &Vec::new(),
        )?;
        let mut parsed: Vec<(String, LegacyHashRow)> = Vec::new();
        let mut i: usize = 0;
        while i < rows.len()
            decreases rows.len() - i,
        {
            match legacy_row(&rows[i]) {
                Some(r) => parsed.push(r),
                None => {
                    return Err(crate::records::bad_row());
                },
            }
            i = i + 1;
        }
        let groups = group_by_hash(parsed);
        let mut g: usize = 0;
        while g < groups.len()
            invariant
                forall|k: int| 0 <= k < groups@.len() ==> (#[trigger] groups@[k]).1@.len() > 0,
            decreases groups.len() - g,
        {
            Self::apply_rederived_hash_group(conn, groups[g].0.as_str(), &groups[g].1)?;
            g = g + 1;
        }
        exec(
            conn,
            "INSERT OR REPLACE INTO settings (key, value) VALUES ('text_hash_v2', '1')",
            &Vec::new(),
        )?;
        Ok(())
    }

    /// Merge one group into its survivor; the new hash is stamped last, once
    /// the losers are gone.
    fn apply_rederived_hash_group(conn: &rusqlite::Connection, new_hash: &str, group: &Vec<
        LegacyHashRow,
    >) -> (r: Result<(), DbError>)
        requires
            group@.len() > 0,
    {
        if group.len() == 1 {
            let mut p: Vec<SqlParam> = Vec::new();
            p.push(SqlParam::Text(new_hash.to_owned()));
            p.push(SqlParam::Int(group[0].id));
            exec(conn, "UPDATE records SET hash = ? WHERE id = ?", &p)?;
            return Ok(());
        }
        if group.len() > u32::MAX as usize {
            return Err(DbError::Invalid("group too large".to_owned()));
        }
        let folded = fold_group_into_winner(group);
        let mut p: Vec<SqlParam> = Vec::new();
        p.push(SqlParam::Int(if folded.is_favorite { 1 } else { 0 }));
        p.push(SqlParam::Int(if folded.is_pinned { 1 } else { 0 }));
        p.push(SqlParam::Int(folded.copy_count));
        p.push(SqlParam::Text(folded.alias.clone()));
        p.push(SqlParam::Int(folded.winner_id));
        exec(
            conn,
            "UPDATE records SET is_favorite = ?, is_pinned = ?, copy_count = ?, alias = ?
             WHERE id = ?",
            &p,
        )?;
        let mut k: usize = 0;
        while k < folded.loser_ids.len()
            decreases folded.loser_ids.len() - k,
        {
            let mut t: Vec<SqlParam> = Vec::new();
            t.push(SqlParam::Int(folded.winner_id));
            t.push(SqlParam::Int(folded.loser_ids[k]));
            exec(
                conn,
                "INSERT OR IGNORE INTO record_tags (record_id, tag_id)
                 SELECT ?, tag_id FROM record_tags WHERE record_id = ?",
                &t,
            )?;
            k = k + 1;
        }
        crate::bundle::refresh_fts_row(conn, folded.winner_id)?;
        if folded.loser_ids.len() > 0 {
            let ph = id_placeholders(folded.loser_ids.len());
            let mut sql = String::new();
            sql.append("DELETE FROM records WHERE id IN (");
            sql.append(ph.as_str());
            sql.append(")");
            let mut ids: Vec<SqlParam> = Vec::new();
            let mut j: usize = 0;
            while j < folded.loser_ids.len()
                decreases folded.loser_ids.len() - j,
            {
                ids.push(SqlParam::Int(folded.loser_ids[j]));
                j = j + 1;
            }
            exec(conn, sql.as_str(), &ids)?;
        }
        let mut h: Vec<SqlParam> = Vec::new();
        h.push(SqlParam::Text(new_hash.to_owned()));
        h.push(SqlParam::Int(folded.winner_id));
        exec(conn, "UPDATE records SET hash = ? WHERE id = ?", &h)?;
        Ok(())
    }
}

} // verus!
