//! Record search: trigram full-text for queries of three or more
//! characters, a single `instr` pass for shorter ones, the same facets and
//! pagination as the list.
use vstd::prelude::*;

use crate::db::{ClipboardDb, is_read, lemma_sent_grows, is_run, lemma_last_run, never_runs, read_of, sent_run};
use crate::query::{build_fts_match_expr, fts_match_expr_spec, lemma_params_view_push, pagination_tail_params, pagination_tail_sql, params_view, push_pagination_tail, push_short_query_predicate, push_tag_filter, short_query_arity, short_query_sql, sort_key_of, tag_filter_applies, tag_filter_sql, type_filter_applies, PageCursor, SortKey, SqlParam, SqlValue, RECORD_COLS_LIST};
use crate::record::ClipboardRecord;
use crate::sqlite::{DbError, runs, Sent, SqlCell, first_int_spec, first_text_spec};
use crate::text::{chars_of, occurs_at, str_eq, trim_seq, trim_string};

use crate::records::{listed_records, opt_view};

verus! {

/// Full-text candidates kept before sorting and paging.
pub const FTS_CANDIDATE_LIMIT: i64 = 2000;

pub open spec fn fts_head_sql() -> Seq<char> {
    "SELECT "@ + RECORD_COLS_LIST@
        + " FROM records CROSS JOIN (SELECT rowid FROM records_fts WHERE records_fts MATCH ? ORDER BY rank LIMIT 2000) f ON f.rowid = records.id WHERE is_trashed = 0"@
}

/// Head of the search query for the trimmed query `t`.
pub open spec fn search_head_sql(t: Seq<char>, include_tags: bool) -> Seq<char> {
    if fts_match_expr_spec(t, include_tags) is Some {
        fts_head_sql()
    } else {
        "SELECT "@ + RECORD_COLS_LIST@ + " FROM records WHERE is_trashed = 0 AND ("@
            + short_query_sql(include_tags, t.len() != 1) + ")"@
    }
}

pub open spec fn search_head_params(t: Seq<char>, include_tags: bool) -> Seq<SqlValue> {
    match fts_match_expr_spec(t, include_tags) {
        Some(m) => seq![SqlValue::Text(m)],
        None => Seq::new(short_query_arity(include_tags, t.len() != 1), |i: int| SqlValue::Text(t)),
    }
}

/// Keyset paging is used for the default newest-first sort when the cursor
/// carries an id and a stamp.
pub open spec fn search_uses_keyset(sort: Option<&str>, cursor: PageCursor) -> bool {
    cursor.id is Some && cursor.updated_at is Some && match sort {
        None => true,
        Some(s) => s@ == "updated_desc"@,
    }
}

pub open spec fn search_sql(
    t: Seq<char>,
    content_type: Option<&str>,
    favorites_only: bool,
    tag_name: Option<&str>,
    sort: Option<&str>,
    include_tags: bool,
    cursor: PageCursor,
) -> Seq<char> {
    search_head_sql(t, include_tags) + (if type_filter_applies(content_type) {
        " AND content_type = ?"@
    } else {
        Seq::empty()
    }) + (if favorites_only {
        " AND is_favorite = 1"@
    } else {
        Seq::empty()
    }) + (if tag_filter_applies(tag_name, include_tags) {
        tag_filter_sql()
    } else {
        Seq::empty()
    }) + pagination_tail_sql(search_uses_keyset(sort, cursor), false, sort_key_of(sort))
}

pub open spec fn search_params(
    t: Seq<char>,
    limit: i32,
    offset: i32,
    content_type: Option<&str>,
    tag_name: Option<&str>,
    sort: Option<&str>,
    include_tags: bool,
    cursor: PageCursor,
) -> Seq<SqlValue> {
    search_head_params(t, include_tags) + (if type_filter_applies(content_type) {
        seq![SqlValue::Text(content_type.unwrap()@)]
    } else {
        Seq::empty()
    }) + (if tag_filter_applies(tag_name, include_tags) {
        seq![SqlValue::Text(tag_name.unwrap()@)]
    } else {
        Seq::empty()
    }) + pagination_tail_params(
        search_uses_keyset(sort, cursor),
        false,
        sort_key_of(sort),
        cursor,
        limit,
        offset,
    )
}

/// SQL and parameters of one page of search results over active records;
/// `None` for a blank query.
pub fn build_search_query(
    query: &str,
    limit: i32,
    offset: i32,
    content_type: Option<&str>,
    favorites_only: bool,
    tag_name: Option<&str>,
    sort: Option<&str>,
    include_tags: bool,
    cursor: PageCursor,
) -> (r: Option<(String, Vec<SqlParam>)>)
    ensures
        r is None <==> trim_seq(query@).len() == 0,
        r matches Some((sql, params)) ==> sql@ == search_sql(
            trim_seq(query@),
            content_type,
            favorites_only,
            tag_name,
            sort,
            include_tags,
            cursor,
        ) && params_view(params@) == search_params(
            trim_seq(query@),
            limit,
            offset,
            content_type,
            tag_name,
            sort,
            include_tags,
            cursor,
        ),
{
    let q = trim_string(query);
    if q.as_str().is_empty() {
        return None;
    }
    let ghost t = q@;
    let mut sql = String::new();
    let mut params: Vec<SqlParam> = Vec::new();
    match build_fts_match_expr(q.as_str(), include_tags) {
        Some(m) => {
            sql.append("SELECT ");
            sql.append(RECORD_COLS_LIST);
            sql.append(
                " FROM records CROSS JOIN (SELECT rowid FROM records_fts WHERE records_fts MATCH ? ORDER BY rank LIMIT 2000) f ON f.rowid = records.id WHERE is_trashed = 0",
            );
            let p = SqlParam::Text(m);
            params.push(p);
            proof {
                lemma_params_view_push(Seq::empty(), p);
                assert(params@ =~= seq![p]);
            }
        },
        None => {
            sql.append("SELECT ");
            sql.append(RECORD_COLS_LIST);
            sql.append(" FROM records WHERE is_trashed = 0 AND (");
            let single_char = chars_of(q.as_str()).len() == 1;
            push_short_query_predicate(&mut sql, &mut params, q.as_str(), include_tags, !single_char);
            sql.append(")");
            assert(params_view(Seq::<SqlParam>::empty()) =~= Seq::empty());
        },
    }
    assert(sql@ =~= search_head_sql(t, include_tags));
    assert(params_view(params@) =~= search_head_params(t, include_tags));
    let ghost s1 = sql@;
    let ghost p1 = params_view(params@);
    if let Some(ct) = content_type {
        if !ct.is_empty() && !str_eq(ct, "all") {
            sql.append(" AND content_type = ?");
            let ghost before = params@;
            let p = SqlParam::Text(ct.to_owned());
            params.push(p);
            proof {
                lemma_params_view_push(before, p);
            }
        }
    }
    let ghost s2 = sql@;
    let ghost p2 = params_view(params@);
    assert(s2 =~= s1 + (if type_filter_applies(content_type) {
        " AND content_type = ?"@
    } else {
        Seq::empty()
    }));
    assert(p2 =~= p1 + (if type_filter_applies(content_type) {
        seq![SqlValue::Text(content_type.unwrap()@)]
    } else {
        Seq::empty()
    }));
    if favorites_only {
        sql.append(" AND is_favorite = 1");
    }
    let ghost s3 = sql@;
    push_tag_filter(&mut sql, &mut params, tag_name, include_tags);
    let ghost s4 = sql@;
    let ghost p4 = params_view(params@);
    let sort_is_default = match sort {
        None => true,
        Some(s) => str_eq(s, "updated_desc"),
    };
    let use_keyset = cursor.id.is_some() && cursor.updated_at.is_some() && sort_is_default;
    proof {
        if sort_is_default {
            reveal_strlit("updated_desc");
            reveal_strlit("updated_asc");
            reveal_strlit("created_desc");
            reveal_strlit("copies_desc");
            if let Some(s) = sort {
                assert(s@ == "updated_desc"@);
                assert(s@.len() != "updated_asc"@.len());
                assert(s@[0] != "created_desc"@[0]);
                assert(s@.len() != "copies_desc"@.len());
            }
            assert(sort_key_of(sort) == SortKey::UpdatedDesc);
        }
    }
    push_pagination_tail(&mut sql, &mut params, use_keyset, cursor, limit, offset, false, sort);
    assert(sql@ =~= search_sql(t, content_type, favorites_only, tag_name, sort, include_tags, cursor));
    assert(params_view(params@) =~= search_params(
        t,
        limit,
        offset,
        content_type,
        tag_name,
        sort,
        include_tags,
        cursor,
    ));
    Some((sql, params))
}

impl ClipboardDb {
    /// Search active records: blank queries find nothing; three or more
    /// characters use the trigram index (at most 2000 candidates), shorter
    /// queries an `instr` pass (a single character skips the content column).
    /// Facets and paging as in the list; keyset paging for the default sort.
    pub fn search_records(
        &mut self,
        query: &str,
        limit: i32,
        offset: i32,
        content_type: Option<&str>,
        favorites_only: bool,
        tag_name: Option<&str>,
        sort: Option<&str>,
        include_tags: bool,
        before_pinned: Option<i32>,
        before_updated_at: Option<&str>,
        before_id: Option<i64>,
    ) -> (r: Result<Vec<ClipboardRecord>, DbError>)
        ensures
            final(self).frame(*old(self)),
            trim_seq(query@).len() == 0 ==> (r matches Ok(v) && v@.len() == 0),
            r matches Ok(v) ==> listed_records(v@, old(self).media_prefix_view(), include_tags),
            r is Ok && trim_seq(query@).len() > 0 ==> final(self).sent_since(*old(self)).len() > 0 && is_read(
                final(self).sent_since(*old(self))[0],
                search_sql(
                    trim_seq(query@),
                    content_type,
                    favorites_only,
                    tag_name,
                    sort,
                    include_tags,
                    search_cursor(before_pinned, before_updated_at, before_id),
                ),
                search_params(
                    trim_seq(query@),
                    limit,
                    offset,
                    content_type,
                    tag_name,
                    sort,
                    include_tags,
                    search_cursor(before_pinned, before_updated_at, before_id),
                ),
            ),
    {
        let cursor = PageCursor {
            pinned: before_pinned,
            updated_at: before_updated_at,
            id: before_id,
            created_at: None,
            copy_count: None,
        };
        let (sql, params) = match build_search_query(
            query,
            limit,
            offset,
            content_type,
            favorites_only,
            tag_name,
            sort,
            include_tags,
            cursor,
        ) {
            Some(q) => q,
            None => {
                return Ok(Vec::new());
            },
        };
        let mut records = self.query_records(sql.as_str(), &params)?;
        let ghost s1 = *self;
        proof {
            assert(self.sent_since(*old(self)) =~= seq![self.log().last()]);
            assert(cursor == search_cursor(before_pinned, before_updated_at, before_id));
        }
        let ghost mapped = records@;
        self.enrich_tags(&mut records, include_tags)?;
        proof {
            self.lemma_tags_keep_listed(mapped, records@, include_tags);
            lemma_sent_grows(*old(self), s1, *self);
            assert(self.sent_since(*old(self))[0] == s1.sent_since(*old(self))[0]);
        }
        Ok(records)
    }
}

/// The paging cursor a search is given.
pub open spec fn search_cursor<'a>(
    before_pinned: Option<i32>,
    before_updated_at: Option<&'a str>,
    before_id: Option<i64>,
) -> PageCursor<'a> {
    PageCursor { pinned: before_pinned, updated_at: before_updated_at, id: before_id, created_at: None, copy_count: None }
}

/// Start of the SQL of a short (one or two character) search, up to the
/// opening of its `instr` predicate.
pub open spec fn short_search_prefix() -> Seq<char> {
    "SELECT "@ + RECORD_COLS_LIST@ + " FROM records WHERE is_trashed = 0 AND ("@
}

/// A trimmed query of one or two characters searches with `instr` over
/// active records, and its predicate opens on the content column exactly
/// when the query has two characters (one character checks the alias
/// first); the first placeholders (four with content, three without) are
/// all bound to the trimmed query.
pub proof fn lemma_short_query_searches_content(
    query: Seq<char>,
    limit: i32,
    offset: i32,
    content_type: Option<&str>,
    favorites_only: bool,
    tag_name: Option<&str>,
    sort: Option<&str>,
    include_tags: bool,
    cursor: PageCursor,
)
    requires
        1 <= trim_seq(query).len() < 3,
    ensures
        ({
            let t = trim_seq(query);
            let sql = search_sql(t, content_type, favorites_only, tag_name, sort, include_tags, cursor);
            let params = search_params(t, limit, offset, content_type, tag_name, sort, include_tags, cursor);
            let bound: int = if t.len() == 2 { 4 } else { 3 };
            &&& sql.len() >= short_search_prefix().len()
            &&& sql.subrange(0, short_search_prefix().len() as int) == short_search_prefix()
            &&& t.len() == 2 ==> occurs_at(sql, "instr(content, ?) > 0"@, short_search_prefix().len() as int)
            &&& t.len() == 1 ==> occurs_at(sql, "instr(alias, ?) > 0"@, short_search_prefix().len() as int)
            &&& params.len() >= bound
            &&& forall|i: int| 0 <= i < bound ==> #[trigger] params[i] == SqlValue::Text(t)
        }),
{
    let t = trim_seq(query);
    crate::text::lemma_trim_idempotent(query);
    assert(trim_seq(t) == t);
    assert(fts_match_expr_spec(t, include_tags) is None);
    let p = short_search_prefix();
    let sql = search_sql(t, content_type, favorites_only, tag_name, sort, include_tags, cursor);
    let body = short_query_sql(include_tags, t.len() != 1);
    let rest = sql.subrange((p.len() + body.len()) as int, sql.len() as int);
    assert(search_head_sql(t, include_tags) == p + body + ")"@);
    assert(sql =~= p + (body + rest));
    assert(sql.subrange(0, p.len() as int) =~= p);
    reveal_strlit("instr(content, ?) > 0 OR ");
    reveal_strlit("instr(content, ?) > 0");
    reveal_strlit("instr(alias, ?) > 0 OR instr(source_app, ?) > 0 OR instr(source_window, ?) > 0");
    reveal_strlit("instr(alias, ?) > 0");
    if t.len() == 2 {
        let n = "instr(content, ?) > 0"@;
        assert(body.subrange(0, n.len() as int) =~= n);
        assert(sql.subrange(p.len() as int, (p.len() + n.len()) as int) =~= body.subrange(0, n.len() as int));
    } else {
        let n = "instr(alias, ?) > 0"@;
        assert(body.subrange(0, n.len() as int) =~= n);
        assert(sql.subrange(p.len() as int, (p.len() + n.len()) as int) =~= body.subrange(0, n.len() as int));
    }
    let params = search_params(t, limit, offset, content_type, tag_name, sort, include_tags, cursor);
    let hp = search_head_params(t, include_tags);
    assert(hp.len() == short_query_arity(include_tags, t.len() != 1));
    assert forall|i: int| 0 <= i < (if t.len() == 2 { 4int } else { 3int }) implies #[trigger] params[i] == SqlValue::Text(t) by {
        assert(params[i] == hp[i]);
    }
}

} // verus!
