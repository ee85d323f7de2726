//! Reading records back: the positional row mapping shared by every record
//! query, absolute media paths, tag enrichment, and the list / export pages.
use vstd::prelude::*;

use crate::db::{ClipboardDb, reads_only, is_read, lemma_sent_grows, is_run, lemma_last_run, never_runs, read_of, sent_run};
use crate::query::{build_list_query, id_placeholders, PageCursor, SqlParam, params_view, SqlValue};
use crate::record::ClipboardRecord;
use crate::sqlite::{query, DbError, SqlCell, runs, Sent, first_int_spec, first_text_spec};
use crate::sync::{build_export_page_query, ExportCursor};
use crate::text::{chars_of, push_char};


verus! {

/// A NOT NULL integer column.
pub open spec fn cell_int(c: SqlCell) -> Option<i64> {
    match c {
        SqlCell::Int(i) => Some(i),
        _ => None,
    }
}

/// A NOT NULL integer column read as `i32` (out-of-range values are errors).
pub open spec fn cell_i32(c: SqlCell) -> Option<i32> {
    match c {
        SqlCell::Int(i) => if i32::MIN <= i <= i32::MAX {
            Some(i as i32)
        } else {
            None
        },
        _ => None,
    }
}

/// A nullable integer column read as `Option<i32>`.
pub open spec fn cell_opt_i32(c: SqlCell) -> Option<Option<i32>> {
    match c {
        SqlCell::Null => Some(None),
        SqlCell::Int(i) => if i32::MIN <= i <= i32::MAX {
            Some(Some(i as i32))
        } else {
            None
        },
        _ => None,
    }
}

/// A NOT NULL text column.
pub open spec fn cell_text(c: SqlCell) -> Option<Seq<char>> {
    match c {
        SqlCell::Text(s) => Some(s@),
        _ => None,
    }
}

/// A nullable text column.
pub open spec fn cell_opt_text(c: SqlCell) -> Option<Option<Seq<char>>> {
    match c {
        SqlCell::Null => Some(None),
        SqlCell::Text(s) => Some(Some(s@)),
        _ => None,
    }
}

/// A flag column (`0` is false, anything else true).
pub open spec fn cell_bool(c: SqlCell) -> Option<bool> {
    match c {
        SqlCell::Int(i) => Some(i != 0),
        _ => None,
    }
}

pub fn read_int(c: &SqlCell) -> (r: Option<i64>)
    ensures
        r == cell_int(*c),
{
    match c {
        SqlCell::Int(i) => Some(*i),
        _ => None,
    }
}

pub fn read_i32(c: &SqlCell) -> (r: Option<i32>)
    ensures
        r == cell_i32(*c),
{
    match c {
        SqlCell::Int(i) => if i32::MIN as i64 <= *i && *i <= i32::MAX as i64 {
            Some(*i as i32)
        } else {
            None
        },
        _ => None,
    }
}

pub fn read_opt_i32(c: &SqlCell) -> (r: Option<Option<i32>>)
    ensures
        r == cell_opt_i32(*c),
{
    match c {
        SqlCell::Null => Some(None),
        SqlCell::Int(i) => if i32::MIN as i64 <= *i && *i <= i32::MAX as i64 {
            Some(Some(*i as i32))
        } else {
            None
        },
        _ => None,
    }
}

pub fn read_text(c: &SqlCell) -> (r: Option<String>)
    ensures
        match r {
            Some(s) => cell_text(*c) == Some(s@),
            None => cell_text(*c) is None,
        },
{
    match c {
        SqlCell::Text(s) => Some(s.clone()),
        _ => None,
    }
}

pub open spec fn opt_view(o: Option<String>) -> Option<Seq<char>> {
    match o {
        Some(s) => Some(s@),
        None => None,
    }
}

pub fn read_opt_text(c: &SqlCell) -> (r: Option<Option<String>>)
    ensures
        match r {
            Some(o) => cell_opt_text(*c) == Some(opt_view(o)),
            None => cell_opt_text(*c) is None,
        },
{
    match c {
        SqlCell::Null => Some(None),
        SqlCell::Text(s) => Some(Some(s.clone())),
        _ => None,
    }
}

pub fn read_bool(c: &SqlCell) -> (r: Option<bool>)
    ensures
        r == cell_bool(*c),
{
    match c {
        SqlCell::Int(i) => Some(*i != 0),
        _ => None,
    }
}

/// `/` turned into `\`.
pub open spec fn backslashed(rel: Seq<char>) -> Seq<char> {
    rel.map_values(|c: char| if c == '/' { '\\' } else { c })
}

/// Absolute path of a media file: the media-root prefix, then the relative
/// path with `\` separators.
pub open spec fn abs_path_spec(prefix: Seq<char>, rel: Seq<char>) -> Seq<char> {
    prefix + backslashed(rel)
}

pub fn abs_path(prefix: &str, rel: &str) -> (r: String)
    ensures
        r@ == abs_path_spec(prefix@, rel@),
{
    let v = chars_of(rel);
    let mut s = prefix.to_owned();
    let mut i: usize = 0;
    while i < v.len()
        invariant
            0 <= i <= v.len(),
            v@ == rel@,
            s@ == prefix@ + backslashed(rel@.take(i as int)),
        decreases v.len() - i,
    {
        let c = v[i];
        push_char(&mut s, if c == '/' { '\\' } else { c });
        assert(rel@.take(i + 1) =~= rel@.take(i as int).push(c));
        assert(backslashed(rel@.take(i + 1)) =~= backslashed(rel@.take(i as int)).push(
            if c == '/' { '\\' } else { c },
        ));
        i = i + 1;
    }
    assert(rel@.take(v.len() as int) =~= rel@);
    s
}

pub open spec fn abs_of(prefix: Seq<char>, rel: Option<Seq<char>>) -> Option<Seq<char>> {
    match rel {
        Some(r) => Some(abs_path_spec(prefix, r)),
        None => None,
    }
}

pub fn abs_opt(prefix: &str, rel: &Option<String>) -> (r: Option<String>)
    ensures
        opt_view(r) == abs_of(prefix@, opt_view(*rel)),
{
    match rel {
        Some(p) => Some(abs_path(prefix, p.as_str())),
        None => None,
    }
}

/// Number of columns of `RECORD_COLS` / `RECORD_COLS_LIST`.
pub const RECORD_ARITY: usize = 23;

/// Whether every column of a record row has the type its field needs.
pub open spec fn row_well_typed(c: Seq<SqlCell>) -> bool {
    &&& c.len() >= RECORD_ARITY
    &&& cell_int(c[0]) is Some
    &&& cell_text(c[1]) is Some
    &&& cell_text(c[2]) is Some
    &&& cell_text(c[3]) is Some
    &&& cell_text(c[4]) is Some
    &&& cell_text(c[5]) is Some
    &&& cell_i32(c[6]) is Some
    &&& cell_bool(c[7]) is Some
    &&& cell_bool(c[8]) is Some
    &&& cell_bool(c[9]) is Some
    &&& cell_bool(c[10]) is Some
    &&& cell_opt_text(c[11]) is Some
    &&& cell_text(c[12]) is Some
    &&& cell_text(c[13]) is Some
    &&& cell_opt_text(c[14]) is Some
    &&& cell_opt_text(c[15]) is Some
    &&& cell_opt_i32(c[16]) is Some
    &&& cell_opt_i32(c[17]) is Some
    &&& cell_opt_text(c[18]) is Some
    &&& cell_i32(c[19]) is Some
    &&& cell_text(c[20]) is Some
    &&& cell_text(c[21]) is Some
    &&& cell_text(c[22]) is Some
}

/// `r` is the record a well-typed row describes (tags not yet loaded).
pub open spec fn record_matches_row(r: ClipboardRecord, c: Seq<SqlCell>, prefix: Seq<char>) -> bool {
    &&& Some(r.id) == cell_int(c[0])
    &&& Some(r.content@) == cell_text(c[1])
    &&& Some(r.content_type@) == cell_text(c[2])
    &&& Some(r.source_app@) == cell_text(c[3])
    &&& Some(r.source_window@) == cell_text(c[4])
    &&& Some(r.hash@) == cell_text(c[5])
    &&& Some(r.copy_count) == cell_i32(c[6])
    &&& Some(r.is_favorite) == cell_bool(c[7])
    &&& Some(r.is_pinned) == cell_bool(c[8])
    &&& Some(r.is_sensitive) == cell_bool(c[9])
    &&& Some(r.is_trashed) == cell_bool(c[10])
    &&& Some(opt_view(r.auto_expire_at)) == cell_opt_text(c[11])
    &&& Some(r.created_at@) == cell_text(c[12])
    &&& Some(r.updated_at@) == cell_text(c[13])
    &&& Some(opt_view(r.media_path)) == cell_opt_text(c[14])
    &&& Some(opt_view(r.thumb_path)) == cell_opt_text(c[15])
    &&& Some(r.width) == cell_opt_i32(c[16])
    &&& Some(r.height) == cell_opt_i32(c[17])
    &&& Some(opt_view(r.content_html)) == cell_opt_text(c[18])
    &&& r.content_len matches Some(n) && Some(n) == cell_i32(c[19])
    &&& Some(r.alias@) == cell_text(c[20])
    &&& Some(r.source_name@) == cell_text(c[21])
    &&& Some(r.source_device_id@) == cell_text(c[22])
    &&& r.tags@.len() == 0
    &&& r.tag_colors@.len() == 0
    &&& opt_view(r.media_abs) == abs_of(prefix, opt_view(r.media_path))
    &&& opt_view(r.thumb_abs) == abs_of(prefix, opt_view(r.thumb_path))
}

/// Map one row of `RECORD_COLS` / `RECORD_COLS_LIST` to a record, by
/// position; a column of the wrong type makes the whole row unreadable.
pub fn map_record_row(cells: &Vec<SqlCell>, prefix: &str) -> (r: Option<ClipboardRecord>)
    ensures
        r is Some <==> row_well_typed(cells@),
        r matches Some(rec) ==> record_matches_row(rec, cells@, prefix@),
{
    if cells.len() < RECORD_ARITY {
        return None;
    }
    let id = read_int(&cells[0])?;
    let content = read_text(&cells[1])?;
    let content_type = read_text(&cells[2])?;
    let source_app = read_text(&cells[3])?;
    let source_window = read_text(&cells[4])?;
    let hash = read_text(&cells[5])?;
    let copy_count = read_i32(&cells[6])?;
    let is_favorite = read_bool(&cells[7])?;
    let is_pinned = read_bool(&cells[8])?;
    let is_sensitive = read_bool(&cells[9])?;
    let is_trashed = read_bool(&cells[10])?;
    let auto_expire_at = read_opt_text(&cells[11])?;
    let created_at = read_text(&cells[12])?;
    let updated_at = read_text(&cells[13])?;
    let media_path = read_opt_text(&cells[14])?;
    let thumb_path = read_opt_text(&cells[15])?;
    let width = read_opt_i32(&cells[16])?;
    let height = read_opt_i32(&cells[17])?;
    let content_html = read_opt_text(&cells[18])?;
    let content_len = read_i32(&cells[19])?;
    let alias = read_text(&cells[20])?;
    let source_name = read_text(&cells[21])?;
    let source_device_id = read_text(&cells[22])?;
    let media_abs = abs_opt(prefix, &media_path);
    let thumb_abs = abs_opt(prefix, &thumb_path);
    Some(
        ClipboardRecord {
            id,
            content,
            content_type,
            source_app,
            source_window,
            source_name,
            source_device_id,
            hash,
            copy_count,
            is_favorite,
            is_pinned,
            is_sensitive,
            is_trashed,
            auto_expire_at,
            created_at,
            updated_at,
            tags: Vec::new(),
            tag_colors: Vec::new(),
            content_html,
            media_path,
            thumb_path,
            width,
            height,
            media_abs,
            thumb_abs,
            content_len: Some(content_len),
            alias,
        },
    )
}

/// Map every row; `None` as soon as one row is unreadable.
pub fn map_record_rows(rows: &Vec<Vec<SqlCell>>, prefix: &str) -> (r: Option<Vec<ClipboardRecord>>)
    ensures
        r is Some <==> forall|k: int| 0 <= k < rows@.len() ==> row_well_typed(#[trigger] rows@[k]@),
        r matches Some(v) ==> v@.len() == rows@.len() && forall|k: int|
            0 <= k < rows@.len() ==> record_matches_row(#[trigger] v@[k], rows@[k]@, prefix@),
{
    let mut out: Vec<ClipboardRecord> = Vec::new();
    let mut i: usize = 0;
    while i < rows.len()
        invariant
            0 <= i <= rows.len(),
            out@.len() == i,
            forall|k: int| 0 <= k < i ==> row_well_typed(#[trigger] rows@[k]@),
            forall|k: int| 0 <= k < i ==> record_matches_row(#[trigger] out@[k], rows@[k]@, prefix@),
        decreases rows.len() - i,
    {
        match map_record_row(&rows[i], prefix) {
            Some(rec) => out.push(rec),
            None => {
                return None;
            },
        }
        i = i + 1;
    }
    Some(out)
}

/// Names linked to record `id`, in the order the pairs list them.
pub open spec fn names_for(pairs: Seq<(i64, String)>, id: i64) -> Seq<Seq<char>>
    decreases pairs.len(),
{
    if pairs.len() == 0 {
        Seq::empty()
    } else {
        let rest = names_for(pairs.drop_last(), id);
        if pairs.last().0 == id {
            rest.push(pairs.last().1@)
        } else {
            rest
        }
    }
}

pub open spec fn strings_view(v: Seq<String>) -> Seq<Seq<char>> {
    v.map_values(|s: String| s@)
}

/// Names of `pairs` linked to `id`.
pub fn names_linked_to(pairs: &Vec<(i64, String)>, id: i64) -> (r: Vec<String>)
    ensures
        strings_view(r@) == names_for(pairs@, id),
{
    let mut out: Vec<String> = Vec::new();
    let mut i: usize = 0;
    while i < pairs.len()
        invariant
            0 <= i <= pairs.len(),
            strings_view(out@) == names_for(pairs@.take(i as int), id),
        decreases pairs.len() - i,
    {
        assert(pairs@.take(i + 1).drop_last() =~= pairs@.take(i as int));
        if pairs[i].0 == id {
            out.push(pairs[i].1.clone());
        }
        assert(strings_view(out@) =~= names_for(pairs@.take(i + 1), id));
        i = i + 1;
    }
    assert(pairs@.take(pairs@.len() as int) =~= pairs@);
    out
}

/// Every record gets the names linked to its id; nothing else changes.
pub open spec fn tags_assigned(
    before: Seq<ClipboardRecord>,
    after: Seq<ClipboardRecord>,
    pairs: Seq<(i64, String)>,
) -> bool {
    &&& after.len() == before.len()
    &&& forall|k: int|
        0 <= k < before.len() ==> strings_view(#[trigger] after[k].tags@) == names_for(
            pairs,
            before[k].id,
        ) && after[k] == (ClipboardRecord { tags: after[k].tags, ..before[k] })
}

/// Give each record the tag names linked to it.
pub fn assign_tags(records: &mut Vec<ClipboardRecord>, pairs: &Vec<(i64, String)>)
    ensures
        tags_assigned(old(records)@, final(records)@, pairs@),
{
    let mut i: usize = 0;
    while i < records.len()
        invariant
            0 <= i <= records.len(),
            records@.len() == old(records)@.len(),
            forall|k: int|
                0 <= k < i ==> strings_view(#[trigger] records@[k].tags@) == names_for(
                    pairs@,
                    old(records)@[k].id,
                ) && records@[k] == (ClipboardRecord { tags: records@[k].tags, ..old(records)@[k] }),
            forall|k: int| i <= k < records@.len() ==> #[trigger] records@[k] == old(records)@[k],
        decreases records.len() - i,
    {
        let ghost before = records@;
        let names = names_linked_to(pairs, records[i].id);
        records[i].tags = names;
        proof {
            assert forall|k: int| 0 <= k < i + 1 implies strings_view(#[trigger] records@[k].tags@)
                == names_for(pairs@, old(records)@[k].id) && records@[k] == (ClipboardRecord {
                tags: records@[k].tags,
                ..old(records)@[k]
            }) by {
                if k < i {
                    assert(records@[k] == before[k]);
                } else {
                    assert(before[k] == old(records)@[k]);
                    assert(records@[k].tags == names);
                    assert(records@[k].id == before[k].id);
                }
            }
            assert forall|k: int| i + 1 <= k < records@.len() implies #[trigger] records@[k] == old(
                records,
            )@[k] by {
                assert(records@[k] == before[k]);
            }
        }
        i = i + 1;
    }
}

/// Name/color pairs linked to record `id`, in the order the rows list them.
pub open spec fn colors_for(rows: Seq<(i64, String, String)>, id: i64) -> Seq<(Seq<char>, Seq<char>)>
    decreases rows.len(),
{
    if rows.len() == 0 {
        Seq::empty()
    } else {
        let rest = colors_for(rows.drop_last(), id);
        if rows.last().0 == id {
            rest.push((rows.last().1@, rows.last().2@))
        } else {
            rest
        }
    }
}

pub open spec fn pairs_view(v: Seq<(String, String)>) -> Seq<(Seq<char>, Seq<char>)> {
    v.map_values(|p: (String, String)| (p.0@, p.1@))
}

pub fn colors_linked_to(rows: &Vec<(i64, String, String)>, id: i64) -> (r: Vec<(String, String)>)
    ensures
        pairs_view(r@) == colors_for(rows@, id),
{
    let mut out: Vec<(String, String)> = Vec::new();
    let mut i: usize = 0;
    while i < rows.len()
        invariant
            0 <= i <= rows.len(),
            pairs_view(out@) == colors_for(rows@.take(i as int), id),
        decreases rows.len() - i,
    {
        assert(rows@.take(i + 1).drop_last() =~= rows@.take(i as int));
        if rows[i].0 == id {
            out.push((rows[i].1.clone(), rows[i].2.clone()));
        }
        assert(pairs_view(out@) =~= colors_for(rows@.take(i + 1), id));
        i = i + 1;
    }
    assert(rows@.take(rows@.len() as int) =~= rows@);
    out
}

/// Each record of `after` carries the tag names linked to the id of its
/// counterpart in `before`.
pub open spec fn tag_names_from(
    before: Seq<ClipboardRecord>,
    after: Seq<ClipboardRecord>,
    pairs: Seq<(i64, String)>,
) -> bool {
    &&& after.len() == before.len()
    &&& forall|k: int|
        0 <= k < before.len() ==> strings_view(#[trigger] after[k].tags@) == names_for(
            pairs,
            before[k].id,
        )
}

/// Each record of `after` carries the name/color pairs linked to the id of
/// its counterpart in `before`.
pub open spec fn tag_colors_from(
    before: Seq<ClipboardRecord>,
    after: Seq<ClipboardRecord>,
    rows: Seq<(i64, String, String)>,
) -> bool {
    &&& after.len() == before.len()
    &&& forall|k: int|
        0 <= k < before.len() ==> pairs_view(#[trigger] after[k].tag_colors@) == colors_for(
            rows,
            before[k].id,
        )
}

/// Every record gets the name/color pairs linked to its id; nothing else
/// changes.
pub open spec fn tag_colors_assigned(
    before: Seq<ClipboardRecord>,
    after: Seq<ClipboardRecord>,
    rows: Seq<(i64, String, String)>,
) -> bool {
    &&& after.len() == before.len()
    &&& forall|k: int|
        0 <= k < before.len() ==> pairs_view(#[trigger] after[k].tag_colors@) == colors_for(
            rows,
            before[k].id,
        ) && after[k] == (ClipboardRecord { tag_colors: after[k].tag_colors, ..before[k] })
}

/// Each record gets the name/color pairs of its tags; nothing else changes.
pub fn assign_tag_colors(records: &mut Vec<ClipboardRecord>, rows: &Vec<(i64, String, String)>)
    ensures
        tag_colors_assigned(old(records)@, final(records)@, rows@),
{
    let mut i: usize = 0;
    while i < records.len()
        invariant
            0 <= i <= records.len(),
            records@.len() == old(records)@.len(),
            forall|k: int|
                0 <= k < i ==> pairs_view(#[trigger] records@[k].tag_colors@) == colors_for(
                    rows@,
                    old(records)@[k].id,
                ) && records@[k] == (ClipboardRecord {
                    tag_colors: records@[k].tag_colors,
                    ..old(records)@[k]
                }),
            forall|k: int| i <= k < records@.len() ==> #[trigger] records@[k] == old(records)@[k],
        decreases records.len() - i,
    {
        let colors = colors_linked_to(rows, records[i].id);
        assert(records@[i as int] == old(records)@[i as int]);
        let ghost before = records@;
        records[i].tag_colors = colors;
        assert(records@[i as int].tag_colors@ == colors@);
        assert forall|k: int| 0 <= k < i + 1 implies pairs_view(#[trigger] records@[k].tag_colors@)
            == colors_for(rows@, old(records)@[k].id) && records@[k] == (ClipboardRecord {
            tag_colors: records@[k].tag_colors,
            ..old(records)@[k]
        }) by {
            if k < i {
                assert(records@[k] == before[k]);
            }
        }
        assert forall|k: int| i + 1 <= k < records@.len() implies #[trigger] records@[k] == old(
            records,
        )@[k] by {
            assert(records@[k] == before[k]);
        }
        i = i + 1;
    }
}

/// Whether `row` is an `(id, name)` row.
pub open spec fn id_name_row(row: Seq<SqlCell>) -> bool {
    row.len() >= 2 && cell_int(row[0]) is Some && cell_text(row[1]) is Some
}

/// Whether `row` is an `(id, name, color)` row.
pub open spec fn id_name_color_row(row: Seq<SqlCell>) -> bool {
    row.len() >= 3 && cell_int(row[0]) is Some && cell_text(row[1]) is Some && cell_text(row[2]) is Some
}

/// Rows of `(record_id, name)`; `None` when a row has other types.
pub fn id_name_pairs(rows: &Vec<Vec<SqlCell>>) -> (r: Option<Vec<(i64, String)>>)
    ensures
        r is Some <==> forall|k: int| 0 <= k < rows@.len() ==> id_name_row(#[trigger] rows@[k]@),
        r matches Some(v) ==> v@.len() == rows@.len() && forall|k: int|
            0 <= k < v@.len() ==> cell_int(rows@[k]@[0]) == Some((#[trigger] v@[k]).0) && cell_text(
                rows@[k]@[1],
            ) == Some(v@[k].1@),
{
    let mut out: Vec<(i64, String)> = Vec::new();
    let mut i: usize = 0;
    while i < rows.len()
        invariant
            0 <= i <= rows.len(),
            out@.len() == i,
            forall|k: int| 0 <= k < i ==> id_name_row(#[trigger] rows@[k]@),
            forall|k: int|
                0 <= k < i ==> cell_int(rows@[k]@[0]) == Some((#[trigger] out@[k]).0) && cell_text(
                    rows@[k]@[1],
                ) == Some(out@[k].1@),
        decreases rows.len() - i,
    {
        if rows[i].len() < 2 {
            return None;
        }
        let id = match read_int(&rows[i][0]) {
            Some(v) => v,
            None => {
                return None;
            },
        };
        let name = match read_text(&rows[i][1]) {
            Some(v) => v,
            None => {
                return None;
            },
        };
        out.push((id, name));
        i = i + 1;
    }
    Some(out)
}

/// Rows of `(record_id, name, color)`; `None` when a row has other types.
pub fn id_name_color_rows(rows: &Vec<Vec<SqlCell>>) -> (r: Option<Vec<(i64, String, String)>>)
    ensures
        r is Some <==> forall|k: int| 0 <= k < rows@.len() ==> id_name_color_row(#[trigger] rows@[k]@),
        r matches Some(v) ==> v@.len() == rows@.len() && forall|k: int|
            0 <= k < v@.len() ==> cell_int(rows@[k]@[0]) == Some((#[trigger] v@[k]).0) && cell_text(
                rows@[k]@[1],
            ) == Some(v@[k].1@) && cell_text(rows@[k]@[2]) == Some(v@[k].2@),
{
    let mut out: Vec<(i64, String, String)> = Vec::new();
    let mut i: usize = 0;
    while i < rows.len()
        invariant
            0 <= i <= rows.len(),
            out@.len() == i,
            forall|k: int| 0 <= k < i ==> id_name_color_row(#[trigger] rows@[k]@),
            forall|k: int|
                0 <= k < i ==> cell_int(rows@[k]@[0]) == Some((#[trigger] out@[k]).0) && cell_text(
                    rows@[k]@[1],
                ) == Some(out@[k].1@) && cell_text(rows@[k]@[2]) == Some(out@[k].2@),
        decreases rows.len() - i,
    {
        if rows[i].len() < 3 {
            return None;
        }
        let id = match read_int(&rows[i][0]) {
            Some(v) => v,
            None => {
                return None;
            },
        };
        let name = match read_text(&rows[i][1]) {
            Some(v) => v,
            None => {
                return None;
            },
        };
        let color = match read_text(&rows[i][2]) {
            Some(v) => v,
            None => {
                return None;
            },
        };
        out.push((id, name, color));
        i = i + 1;
    }
    Some(out)
}

/// A page of records as the list and search return them: row-shaped, no
/// tag colors, and no tags unless they were asked for.
pub open spec fn listed_records(v: Seq<ClipboardRecord>, prefix: Seq<char>, include_tags: bool) -> bool {
    forall|k: int|
        0 <= k < v.len() ==> row_shaped(#[trigger] v[k], prefix) && v[k].tag_colors@.len() == 0 && (
        !include_tags ==> v[k].tags@.len() == 0)
}

/// Export rows: no absolute local paths, paste-size column present.
pub open spec fn export_shaped(v: Seq<ClipboardRecord>) -> bool {
    forall|k: int|
        0 <= k < v.len() ==> (#[trigger] v[k]).media_abs is None && v[k].thumb_abs is None
            && v[k].content_len is Some
}

/// A record as a row query maps it: the paste-size column is present and
/// the absolute paths are the relative ones under `prefix`.
pub open spec fn row_shaped(r: ClipboardRecord, prefix: Seq<char>) -> bool {
    &&& r.content_len is Some
    &&& opt_view(r.media_abs) == abs_of(prefix, opt_view(r.media_path))
    &&& opt_view(r.thumb_abs) == abs_of(prefix, opt_view(r.thumb_path))
}

/// The ids of `records` as bound parameters.
pub fn id_params(records: &Vec<ClipboardRecord>) -> (r: Vec<SqlParam>)
    ensures
        r@.len() == records@.len(),
        forall|k: int| 0 <= k < r@.len() ==> #[trigger] r@[k] == SqlParam::Int(records@[k].id),
{
    let mut out: Vec<SqlParam> = Vec::new();
    let mut i: usize = 0;
    while i < records.len()
        invariant
            0 <= i <= records.len(),
            out@.len() == i,
            forall|k: int| 0 <= k < i ==> #[trigger] out@[k] == SqlParam::Int(records@[k].id),
        decreases records.len() - i,
    {
        out.push(SqlParam::Int(records[i].id));
        i = i + 1;
    }
    out
}

/// The error for a row whose columns do not have the expected types.
pub fn bad_row() -> (e: DbError)
    ensures
        e matches DbError::Sql(m) && m@ == "Invalid column type"@,
{
    let m = "Invalid column type".to_owned();
    DbError::Sql(m)
}

impl ClipboardDb {
    /// Load the tag names of every record (one query) when `include_tags`:
    /// each record gets the names the store links to its id, in the order
    /// the store lists them.
    pub fn enrich_tags(&mut self, records: &mut Vec<ClipboardRecord>, include_tags: bool) -> (r: Result<
        (),
        DbError,
    >)
        ensures
            final(self).frame(*old(self)),
            final(records)@.len() == old(records)@.len(),
            !include_tags || old(records)@.len() == 0 || r is Err ==> final(records)@ == old(records)@,
            r is Ok && include_tags ==> forall|k: int|
                0 <= k < old(records)@.len() ==> #[trigger] final(records)@[k].id == old(
                    records,
                )@[k].id,
            r is Ok && include_tags ==> exists|pairs: Seq<(i64, String)>|
                tags_assigned(old(records)@, final(records)@, pairs),
            forall|k: int|
                0 <= k < old(records)@.len() ==> #[trigger] final(records)@[k] == (ClipboardRecord {
                    tags: final(records)@[k].tags,
                    ..old(records)@[k]
                }),
    {
        if !include_tags {
            return Ok(());
        }
        if records.len() == 0 {
            assert(tags_assigned(old(records)@, records@, Seq::<(i64, String)>::empty()));
            return Ok(());
        }
        let mut sql = String::new();
        sql.append(
            "SELECT rt.record_id, t.name FROM tags t
             INNER JOIN record_tags rt ON rt.tag_id = t.id
             WHERE rt.record_id IN (",
        );
        let ph = id_placeholders(records.len());
        sql.append(ph.as_str());
        sql.append(")
             ORDER BY rt.record_id");
        let params = id_params(records);
        let rows = self.query(sql.as_str(), &params)?;
        let pairs = match id_name_pairs(&rows) {
            Some(p) => p,
            None => {
                return Err(bad_row());
            },
        };
        assign_tags(records, &pairs);
        assert forall|k: int| 0 <= k < old(records)@.len() implies #[trigger] records@[k].id == old(
            records,
        )@[k].id by {
            assert(strings_view(records@[k].tags@) == names_for(pairs@, old(records)@[k].id));
        }
        assert(tags_assigned(old(records)@, records@, pairs@));
        assert forall|k: int| 0 <= k < old(records)@.len() implies #[trigger] records@[k] == (
        ClipboardRecord { tags: records@[k].tags, ..old(records)@[k] }) by {
            assert(strings_view(records@[k].tags@) == names_for(pairs@, old(records)@[k].id));
        }
        Ok(())
    }

    /// Load the tag name/color pairs of every record (one query): each
    /// record gets the pairs the store links to its id.
    pub fn enrich_tag_colors(&mut self, records: &mut Vec<ClipboardRecord>) -> (r: Result<(), DbError>)
        ensures
            final(self).frame(*old(self)),
            final(records)@.len() == old(records)@.len(),
            old(records)@.len() == 0 || r is Err ==> final(records)@ == old(records)@,
            r is Ok ==> exists|rows: Seq<(i64, String, String)>|
                tag_colors_assigned(old(records)@, final(records)@, rows),
    {
        if records.len() == 0 {
            assert(tag_colors_assigned(old(records)@, records@, Seq::<(i64, String, String)>::empty()));
            return Ok(());
        }
        let mut sql = String::new();
        sql.append(
            "SELECT rt.record_id, t.name, t.color FROM tags t
             INNER JOIN record_tags rt ON rt.tag_id = t.id
             WHERE rt.record_id IN (",
        );
        let ph = id_placeholders(records.len());
        sql.append(ph.as_str());
        sql.append(") ORDER BY rt.record_id");
        let params = id_params(records);
        let rows = self.query(sql.as_str(), &params)?;
        let triples = match id_name_color_rows(&rows) {
            Some(t) => t,
            None => {
                return Err(bad_row());
            },
        };
        assign_tag_colors(records, &triples);
        Ok(())
    }

    /// Loading tags keeps a mapped page listed.
    pub(crate) proof fn lemma_tags_keep_listed(
        &self,
        mapped: Seq<ClipboardRecord>,
        tagged: Seq<ClipboardRecord>,
        include_tags: bool,
    )
        requires
            forall|k: int|
                0 <= k < mapped.len() ==> row_shaped(#[trigger] mapped[k], self.media_prefix_view())
                    && mapped[k].tags@.len() == 0 && mapped[k].tag_colors@.len() == 0,
            tagged.len() == mapped.len(),
            forall|k: int|
                0 <= k < mapped.len() ==> #[trigger] tagged[k] == (ClipboardRecord {
                    tags: tagged[k].tags,
                    ..mapped[k]
                }),
            !include_tags ==> tagged == mapped,
        ensures
            listed_records(tagged, self.media_prefix_view(), include_tags),
    {
        assert forall|k: int| 0 <= k < tagged.len() implies row_shaped(
            #[trigger] tagged[k],
            self.media_prefix_view(),
        ) && tagged[k].tag_colors@.len() == 0 && (!include_tags ==> tagged[k].tags@.len() == 0) by {
            assert(tagged[k] == (ClipboardRecord { tags: tagged[k].tags, ..mapped[k] }));
            assert(row_shaped(mapped[k], self.media_prefix_view()));
        }
    }

    /// Run a record query and map its rows: each record comes without tags,
    /// with its absolute paths under this history's media directory.
    pub fn query_records(&mut self, sql: &str, params: &Vec<SqlParam>) -> (r: Result<
        Vec<ClipboardRecord>,
        DbError,
    >)
        ensures
            final(self).frame(*old(self)),
            reads_only(*old(self), *final(self)),
            r matches Ok(v) ==> forall|k: int|
                0 <= k < v@.len() ==> row_shaped(#[trigger] v@[k], old(self).media_prefix_view())
                    && v@[k].tags@.len() == 0 && v@[k].tag_colors@.len() == 0,
            r matches Ok(v) ==> exists|rows: Seq<Vec<SqlCell>>|
                final(self).log() == old(self).log().push(
                    #[trigger] read_of(sql@, params_view(params@), rows),
                ) && v@.len() == rows.len() && forall|k: int|
                    0 <= k < v@.len() ==> record_matches_row(
                        #[trigger] v@[k],
                        rows[k]@,
                        old(self).media_prefix_view(),
                    ),
    {
        let rows = self.query(sql, params)?;
        assert(self.log() == old(self).log().push(read_of(sql@, params_view(params@), rows@)));
        match map_record_rows(&rows, self.prefix()) {
            Some(v) => {
                assert forall|k: int| 0 <= k < v@.len() implies row_shaped(
                    #[trigger] v@[k],
                    self.media_prefix_view(),
                ) && v@[k].tags@.len() == 0 && v@[k].tag_colors@.len() == 0 by {
                    assert(record_matches_row(v@[k], rows@[k]@, self.media_prefix_view()));
                }
                Ok(v)
            },
            None => Err(bad_row()),
        }
    }

    /// One page of the record list: trash or active rows, optionally one
    /// content type, favorites only, or one tag; keyset-paged when the
    /// cursor carries the sort's key, else OFFSET-paged. Tags are loaded
    /// when `include_tags`.
    pub fn get_records(
        &mut self,
        limit: i32,
        offset: i32,
        trashed: bool,
        content_type: Option<&str>,
        favorites_only: bool,
        tag_name: Option<&str>,
        sort: Option<&str>,
        cursor: PageCursor,
        include_tags: bool,
    ) -> (r: Result<Vec<ClipboardRecord>, DbError>)
        ensures
            final(self).frame(*old(self)),
            r matches Ok(v) ==> listed_records(v@, old(self).media_prefix_view(), include_tags),
            r is Ok ==> final(self).sent_since(*old(self)).len() > 0 && is_read(
                final(self).sent_since(*old(self))[0],
                crate::query::list_query_sql(
                    trashed,
                    content_type,
                    favorites_only,
                    tag_name,
                    crate::query::sort_key_of(sort),
                    crate::query::cursor_ready(cursor, crate::query::sort_key_of(sort)),
                    include_tags,
                ),
                crate::query::list_query_params(
                    limit,
                    offset,
                    trashed,
                    content_type,
                    tag_name,
                    crate::query::sort_key_of(sort),
                    cursor,
                    crate::query::cursor_ready(cursor, crate::query::sort_key_of(sort)),
                    include_tags,
                ),
            ),
    {
        let (sql, params) = build_list_query(
            limit,
            offset,
            trashed,
            content_type,
            favorites_only,
            tag_name,
            sort,
            cursor,
            include_tags,
        );
        let mut records = self.query_records(sql.as_str(), &params)?;
        let ghost s1 = *self;
        proof {
            assert(self.sent_since(*old(self)) =~= seq![self.log().last()]);
        }
        let ghost mapped = records@;
        self.enrich_tags(&mut records, include_tags)?;
        proof {
            self.lemma_tags_keep_listed(mapped, records@, include_tags);
            lemma_sent_grows(*old(self), s1, *self);
            assert(self.sent_since(*old(self))[0] == s1.sent_since(*old(self))[0]);
        }
        Ok(records)
    }

    /// Export rows never carry absolute local paths; tags and their colors
    /// are loaded so the bundle is self-contained.
    pub fn strip_local_paths(&mut self, records: &mut Vec<ClipboardRecord>) -> (r: Result<(), DbError>)
        ensures
            final(self).frame(*old(self)),
            final(records)@.len() == old(records)@.len(),
            r is Ok ==> forall|k: int|
                0 <= k < final(records)@.len() ==> #[trigger] final(records)@[k] == (ClipboardRecord {
                    tags: final(records)@[k].tags,
                    tag_colors: final(records)@[k].tag_colors,
                    media_abs: None,
                    thumb_abs: None,
                    ..old(records)@[k]
                }),
            r is Ok ==> exists|pairs: Seq<(i64, String)>|
                tag_names_from(old(records)@, final(records)@, pairs),
            r is Ok ==> exists|rows: Seq<(i64, String, String)>|
                tag_colors_from(old(records)@, final(records)@, rows),
    {
        self.enrich_tags(records, true)?;
        let ghost tagged = records@;
        assert(exists|pairs: Seq<(i64, String)>| tags_assigned(old(records)@, tagged, pairs));
        let ghost pairs = choose|pairs: Seq<(i64, String)>| tags_assigned(old(records)@, tagged, pairs);
        self.enrich_tag_colors(records)?;
        let ghost colored = records@;
        assert(exists|rows: Seq<(i64, String, String)>| tag_colors_assigned(tagged, colored, rows));
        let ghost rows = choose|rows: Seq<(i64, String, String)>|
            tag_colors_assigned(tagged, colored, rows);
        proof {
            assert forall|k: int| 0 <= k < colored.len() implies #[trigger] colored[k] == (
            ClipboardRecord {
                tags: colored[k].tags,
                tag_colors: colored[k].tag_colors,
                ..old(records)@[k]
            }) && strings_view(colored[k].tags@) == names_for(pairs, old(records)@[k].id)
                && pairs_view(colored[k].tag_colors@) == colors_for(rows, old(records)@[k].id) by {
                assert(pairs_view(colored[k].tag_colors@) == colors_for(rows, tagged[k].id));
                assert(strings_view(tagged[k].tags@) == names_for(pairs, old(records)@[k].id));
            }
        }
        let mut i: usize = 0;
        while i < records.len()
            invariant
                self.frame(*old(self)),
                0 <= i <= records.len(),
                records@.len() == old(records)@.len(),
                colored.len() == old(records)@.len(),
                forall|k: int| 0 <= k < colored.len() ==> #[trigger] colored[k] == (ClipboardRecord {
                    tags: colored[k].tags,
                    tag_colors: colored[k].tag_colors,
                    ..old(records)@[k]
                }) && strings_view(colored[k].tags@) == names_for(pairs, old(records)@[k].id)
                    && pairs_view(colored[k].tag_colors@) == colors_for(rows, old(records)@[k].id),
                forall|k: int|
                    0 <= k < i ==> #[trigger] records@[k] == (ClipboardRecord {
                        media_abs: None,
                        thumb_abs: None,
                        ..colored[k]
                    }),
                forall|k: int| i <= k < records@.len() ==> #[trigger] records@[k] == colored[k],
            decreases records.len() - i,
        {
            let ghost before = records@;
            records[i].media_abs = None;
            records[i].thumb_abs = None;
            proof {
                assert forall|k: int| 0 <= k < i + 1 implies #[trigger] records@[k] == (
                ClipboardRecord { media_abs: None, thumb_abs: None, ..colored[k] }) by {
                    if k < i {
                        assert(records@[k] == before[k]);
                    }
                }
                assert forall|k: int| i + 1 <= k < records@.len() implies #[trigger] records@[k]
                    == colored[k] by {
                    assert(records@[k] == before[k]);
                }
            }
            i = i + 1;
        }
        proof {
            assert forall|k: int| 0 <= k < records@.len() implies #[trigger] records@[k] == (
            ClipboardRecord {
                tags: records@[k].tags,
                tag_colors: records@[k].tag_colors,
                media_abs: None,
                thumb_abs: None,
                ..old(records)@[k]
            }) && strings_view(records@[k].tags@) == names_for(pairs, old(records)@[k].id)
                && pairs_view(records@[k].tag_colors@) == colors_for(rows, old(records)@[k].id) by {
                assert(records@[k] == (ClipboardRecord { media_abs: None, thumb_abs: None, ..colored[k] }));
                assert(colored[k] == (ClipboardRecord {
                    tags: colored[k].tags,
                    tag_colors: colored[k].tag_colors,
                    ..old(records)@[k]
                }));
            }
            assert(tag_names_from(old(records)@, records@, pairs));
            assert(tag_colors_from(old(records)@, records@, rows));
        }
        Ok(())
    }

    /// OFFSET page of active rows with full content, pinned first then
    /// newest (for one-shot exports).
    pub fn get_records_for_export(&mut self, limit: i32, offset: i32) -> (r: Result<
        Vec<ClipboardRecord>,
        DbError,
    >)
        ensures
            final(self).frame(*old(self)),
            r matches Ok(v) ==> export_shaped(v@),
    {
        let mut sql = String::new();
        sql.append("SELECT ");
        sql.append(crate::query::RECORD_COLS);
        sql.append(
            " FROM records WHERE is_trashed = 0
             ORDER BY is_pinned DESC, updated_at DESC LIMIT ? OFFSET ?",
        );
        let mut params: Vec<SqlParam> = Vec::new();
        params.push(SqlParam::Int(crate::query::clamp_page_limit(limit) as i64));
        params.push(SqlParam::Int(if offset < 0 { 0 } else { offset as i64 }));
        let mut records = self.query_records(sql.as_str(), &params)?;
        let ghost mapped = records@;
        self.strip_local_paths(&mut records)?;
        assert forall|k: int| 0 <= k < records@.len() implies (#[trigger] records@[k]).media_abs is None
            && records@[k].thumb_abs is None && records@[k].content_len is Some by {
            assert(row_shaped(mapped[k], self.media_prefix_view()));
        }
        Ok(records)
    }

    /// Keyset page of active rows with full content, strictly after
    /// `cursor` in the export order.
    pub fn get_records_for_export_page(&mut self, limit: i32, cursor: Option<&ExportCursor>) -> (r:
        Result<Vec<ClipboardRecord>, DbError>)
        ensures
            final(self).frame(*old(self)),
            r matches Ok(v) ==> export_shaped(v@),
    {
        let (sql, params) = build_export_page_query(limit, cursor);
        let mut records = self.query_records(sql.as_str(), &params)?;
        let ghost mapped = records@;
        self.strip_local_paths(&mut records)?;
        assert forall|k: int| 0 <= k < records@.len() implies (#[trigger] records@[k]).media_abs is None
            && records@[k].thumb_abs is None && records@[k].content_len is Some by {
            assert(row_shaped(mapped[k], self.media_prefix_view()));
        }
        Ok(records)
    }
}

} // verus!
