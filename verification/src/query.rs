//! SQL fragments for record listing: sort whitelist, keyset pagination,
//! full-text match tokens and parameter placeholders.
//!
//! The list order is modelled as a sequence of [`OrderTerm`]s; the `ORDER BY`
//! text and the keyset predicate are both derived from that one sequence, and
//! [`lemma_keyset_selects_rows_after_cursor`] shows the predicate selects
//! exactly the rows that come strictly after the cursor in that order.
use vstd::prelude::*;

use crate::text::{chars_of, str_eq, trim_to_chars, trim_seq, push_char};

verus! {

/// A value bound to a `?` placeholder.
#[derive(Debug, Clone, PartialEq, Eq)]
pub enum SqlParam {
    Int(i64),
    Text(String),
    Null,
}

/// Mathematical value of a bound parameter or of a row column.
pub enum SqlValue {
    Int(int),
    Text(Seq<char>),
    Null,
}

impl View for SqlParam {
    type V = SqlValue;

    open spec fn view(&self) -> SqlValue {
        match self {
            SqlParam::Int(i) => SqlValue::Int(*i as int),
            SqlParam::Text(s) => SqlValue::Text(s@),
            SqlParam::Null => SqlValue::Null,
        }
    }
}

pub open spec fn params_view(p: Seq<SqlParam>) -> Seq<SqlValue> {
    p.map_values(|x: SqlParam| x@)
}

pub proof fn lemma_params_view_push(p: Seq<SqlParam>, x: SqlParam)
    ensures
        params_view(p.push(x)) == params_view(p).push(x@),
{
    assert(params_view(p.push(x)) =~= params_view(p).push(x@));
}

/// Whitelisted list sorts. Unknown keys fall back to `UpdatedDesc`.
#[derive(Clone, Copy, PartialEq, Eq, Structural)]
pub enum SortKey {
    UpdatedDesc,
    UpdatedAsc,
    CreatedDesc,
    CopiesDesc,
}

pub open spec fn sort_key_of(sort: Option<&str>) -> SortKey {
    match sort {
        None => SortKey::UpdatedDesc,
        Some(s) => if s@ == "updated_asc"@ {
            SortKey::UpdatedAsc
        } else if s@ == "created_desc"@ {
            SortKey::CreatedDesc
        } else if s@ == "copies_desc"@ {
            SortKey::CopiesDesc
        } else {
            SortKey::UpdatedDesc
        },
    }
}

/// Resolve a caller-supplied sort key against the whitelist.
pub fn parse_sort(sort: Option<&str>) -> (k: SortKey)
    ensures
        k == sort_key_of(sort),
{
    match sort {
        None => SortKey::UpdatedDesc,
        Some(s) => if str_eq(s, "updated_asc") {
            SortKey::UpdatedAsc
        } else if str_eq(s, "created_desc") {
            SortKey::CreatedDesc
        } else if str_eq(s, "copies_desc") {
            SortKey::CopiesDesc
        } else {
            SortKey::UpdatedDesc
        },
    }
}

/// Columns that take part in list ordering.
#[derive(Clone, Copy, PartialEq, Eq, Structural)]
pub enum Col {
    Pinned,
    UpdatedAt,
    CreatedAt,
    CopyCount,
    Id,
}

/// One `ORDER BY` term.
#[derive(Clone, Copy, PartialEq, Eq, Structural)]
pub struct OrderTerm {
    pub col: Col,
    pub desc: bool,
}

pub open spec fn term(col: Col, desc: bool) -> OrderTerm {
    OrderTerm { col, desc }
}

/// The secondary terms of a sort (between the pinned term and the id tiebreak).
pub open spec fn secondary_terms(k: SortKey) -> Seq<OrderTerm> {
    match k {
        SortKey::UpdatedDesc => seq![term(Col::UpdatedAt, true)],
        SortKey::UpdatedAsc => seq![term(Col::UpdatedAt, false)],
        SortKey::CreatedDesc => seq![term(Col::CreatedAt, true)],
        SortKey::CopiesDesc => seq![term(Col::CopyCount, true), term(Col::UpdatedAt, true)],
    }
}

/// Full list order: pinned rows first on active lists, then the sort's
/// columns, then `id` as the total-order tiebreak (same direction as the sort).
pub open spec fn order_terms(trashed: bool, k: SortKey) -> Seq<OrderTerm> {
    let tail = secondary_terms(k).push(term(Col::Id, k != SortKey::UpdatedAsc));
    if trashed {
        tail
    } else {
        seq![term(Col::Pinned, true)] + tail
    }
}

pub fn order_terms_exec(trashed: bool, k: SortKey) -> (v: Vec<OrderTerm>)
    ensures
        v@ == order_terms(trashed, k),
{
    let mut v: Vec<OrderTerm> = Vec::new();
    if !trashed {
        v.push(OrderTerm { col: Col::Pinned, desc: true });
    }
    match k {
        SortKey::UpdatedDesc => v.push(OrderTerm { col: Col::UpdatedAt, desc: true }),
        SortKey::UpdatedAsc => v.push(OrderTerm { col: Col::UpdatedAt, desc: false }),
        SortKey::CreatedDesc => v.push(OrderTerm { col: Col::CreatedAt, desc: true }),
        SortKey::CopiesDesc => {
            v.push(OrderTerm { col: Col::CopyCount, desc: true });
            v.push(OrderTerm { col: Col::UpdatedAt, desc: true });
        },
    }
    v.push(OrderTerm { col: Col::Id, desc: k != SortKey::UpdatedAsc });
    assert(v@ =~= order_terms(trashed, k));
    v
}

// ---------------------------------------------------------------------------
// Row keys and the list order
// ---------------------------------------------------------------------------

/// The ordering columns of one row (or of the cursor row).
pub struct RowKey {
    pub pinned: int,
    pub updated_at: Seq<char>,
    pub created_at: Seq<char>,
    pub copy_count: int,
    pub id: int,
}

pub open spec fn col_value(c: Col, r: RowKey) -> SqlValue {
    match c {
        Col::Pinned => SqlValue::Int(r.pinned),
        Col::UpdatedAt => SqlValue::Text(r.updated_at),
        Col::CreatedAt => SqlValue::Text(r.created_at),
        Col::CopyCount => SqlValue::Int(r.copy_count),
        Col::Id => SqlValue::Int(r.id),
    }
}

/// SQLite's default (BINARY) text order: byte-wise on UTF-8, which is the
/// code-point order of the characters.
pub open spec fn text_lt(a: Seq<char>, b: Seq<char>) -> bool
    decreases a.len(),
{
    if a.len() == 0 {
        b.len() > 0
    } else if b.len() == 0 {
        false
    } else if a[0] != b[0] {
        (a[0] as int) < (b[0] as int)
    } else {
        text_lt(a.drop_first(), b.drop_first())
    }
}

/// Executable [`text_lt`]: code-point lexicographic order, the order
/// SQLite's default collation gives UTF-8 text.
pub fn text_less(a: &str, b: &str) -> (r: bool)
    ensures
        r == text_lt(a@, b@),
{
    let va = chars_of(a);
    let vb = chars_of(b);
    let mut i: usize = 0;
    assert(a@.skip(0) =~= a@);
    assert(b@.skip(0) =~= b@);
    while i < va.len() && i < vb.len()
        invariant
            0 <= i <= va.len(),
            i <= vb.len(),
            va@ == a@,
            vb@ == b@,
            text_lt(a@, b@) == text_lt(a@.skip(i as int), b@.skip(i as int)),
        decreases va.len() - i,
    {
        let x = va[i];
        let y = vb[i];
        assert(a@.skip(i as int)[0] == x);
        assert(b@.skip(i as int)[0] == y);
        if x != y {
            return x < y;
        }
        assert(a@.skip(i as int).drop_first() =~= a@.skip(i + 1));
        assert(b@.skip(i as int).drop_first() =~= b@.skip(i + 1));
        i = i + 1;
    }
    assert(a@.skip(i as int).len() == va.len() - i);
    assert(b@.skip(i as int).len() == vb.len() - i);
    i < vb.len() && i == va.len()
}

pub open spec fn value_lt(a: SqlValue, b: SqlValue) -> bool {
    match (a, b) {
        (SqlValue::Int(x), SqlValue::Int(y)) => x < y,
        (SqlValue::Text(x), SqlValue::Text(y)) => text_lt(x, y),
        _ => false,
    }
}

/// `row` is strictly past `cur` on term `t`.
pub open spec fn strictly_past(t: OrderTerm, cur: RowKey, row: RowKey) -> bool {
    if t.desc {
        value_lt(col_value(t.col, row), col_value(t.col, cur))
    } else {
        value_lt(col_value(t.col, cur), col_value(t.col, row))
    }
}

pub open spec fn same_on(t: OrderTerm, cur: RowKey, row: RowKey) -> bool {
    col_value(t.col, row) == col_value(t.col, cur)
}

/// `row` is ordered strictly after `cur` under `ORDER BY terms`.
pub open spec fn ordered_after(terms: Seq<OrderTerm>, cur: RowKey, row: RowKey) -> bool
    decreases terms.len(),
{
    terms.len() > 0 && (strictly_past(terms[0], cur, row) || (same_on(terms[0], cur, row)
        && ordered_after(terms.drop_first(), cur, row)))
}

/// Disjunct `i` of the keyset predicate: equal on terms `0..i`, strictly past on term `i`.
pub open spec fn disjunct_holds(terms: Seq<OrderTerm>, i: int, cur: RowKey, row: RowKey) -> bool {
    &&& forall|j: int| 0 <= j < i ==> same_on(#[trigger] terms[j], cur, row)
    &&& strictly_past(terms[i], cur, row)
}

/// The keyset predicate: some disjunct holds.
pub open spec fn keyset_holds(terms: Seq<OrderTerm>, cur: RowKey, row: RowKey) -> bool {
    exists|i: int| 0 <= i < terms.len() && #[trigger] disjunct_holds(terms, i, cur, row)
}

pub proof fn lemma_keyset_matches_order(terms: Seq<OrderTerm>, cur: RowKey, row: RowKey)
    ensures
        keyset_holds(terms, cur, row) == ordered_after(terms, cur, row),
    decreases terms.len(),
{
    if terms.len() == 0 {
    } else {
        let rest = terms.drop_first();
        lemma_keyset_matches_order(rest, cur, row);
        if ordered_after(terms, cur, row) {
            if strictly_past(terms[0], cur, row) {
                assert(disjunct_holds(terms, 0, cur, row));
            } else {
                assert(keyset_holds(rest, cur, row));
                let i = choose|i: int| 0 <= i < rest.len() && #[trigger] disjunct_holds(rest, i, cur, row);
                assert forall|j: int| 0 <= j < i + 1 implies same_on(#[trigger] terms[j], cur, row) by {
                    if j > 0 {
                        assert(terms[j] == rest[j - 1]);
                    }
                }
                assert(disjunct_holds(terms, i + 1, cur, row));
            }
        }
        if keyset_holds(terms, cur, row) {
            let i = choose|i: int| 0 <= i < terms.len() && #[trigger] disjunct_holds(terms, i, cur, row);
            if i > 0 {
                assert(same_on(terms[0], cur, row));
                assert forall|j: int| 0 <= j < i - 1 implies same_on(#[trigger] rest[j], cur, row) by {
                    assert(rest[j] == terms[j + 1]);
                }
                assert(disjunct_holds(rest, i - 1, cur, row));
            }
        }
    }
}


// ---------------------------------------------------------------------------
// ORDER BY text
// ---------------------------------------------------------------------------

pub open spec fn col_sql(c: Col) -> Seq<char> {
    match c {
        Col::Pinned => "is_pinned"@,
        Col::UpdatedAt => "updated_at"@,
        Col::CreatedAt => "created_at"@,
        Col::CopyCount => "copy_count"@,
        Col::Id => "id"@,
    }
}

pub fn col_sql_exec(c: Col) -> (s: &'static str)
    ensures
        s@ == col_sql(c),
{
    match c {
        Col::Pinned => "is_pinned",
        Col::UpdatedAt => "updated_at",
        Col::CreatedAt => "created_at",
        Col::CopyCount => "copy_count",
        Col::Id => "id",
    }
}

pub open spec fn term_order_sql(t: OrderTerm) -> Seq<char> {
    col_sql(t.col) + if t.desc {
        " DESC"@
    } else {
        " ASC"@
    }
}

/// `ORDER BY` body for `terms`: `col DIR, col DIR, ...`.
pub open spec fn order_sql(terms: Seq<OrderTerm>) -> Seq<char>
    decreases terms.len(),
{
    if terms.len() == 0 {
        Seq::empty()
    } else if terms.len() == 1 {
        term_order_sql(terms[0])
    } else {
        term_order_sql(terms[0]) + ", "@ + order_sql(terms.drop_first())
    }
}

/// Whitelist sort keys -> ORDER BY fragment. Unknown values fall back to
/// `updated_desc`. Non-trash lists keep pinned rows first; every order ends in
/// an `id` tiebreak so it is total, matching the keyset predicate.
pub fn order_by_clause(trashed: bool, sort: Option<&str>) -> (r: &'static str)
    ensures
        r@ == order_sql(order_terms(trashed, sort_key_of(sort))),
{
    let k = parse_sort(sort);
    let r = if trashed {
        match k {
            SortKey::UpdatedAsc => "updated_at ASC, id ASC",
            SortKey::CreatedDesc => "created_at DESC, id DESC",
            SortKey::CopiesDesc => "copy_count DESC, updated_at DESC, id DESC",
            SortKey::UpdatedDesc => "updated_at DESC, id DESC",
        }
    } else {
        match k {
            SortKey::UpdatedAsc => "is_pinned DESC, updated_at ASC, id ASC",
            SortKey::CreatedDesc => "is_pinned DESC, created_at DESC, id DESC",
            SortKey::CopiesDesc => "is_pinned DESC, copy_count DESC, updated_at DESC, id DESC",
            SortKey::UpdatedDesc => "is_pinned DESC, updated_at DESC, id DESC",
        }
    };
    proof {
        lemma_order_sql_text(trashed, k, r);
    }
    r
}

proof fn lemma_order_sql_text(trashed: bool, k: SortKey, r: &str)
    requires
        trashed && k == SortKey::UpdatedAsc ==> r@ == "updated_at ASC, id ASC"@,
        trashed && k == SortKey::CreatedDesc ==> r@ == "created_at DESC, id DESC"@,
        trashed && k == SortKey::CopiesDesc ==> r@ == "copy_count DESC, updated_at DESC, id DESC"@,
        trashed && k == SortKey::UpdatedDesc ==> r@ == "updated_at DESC, id DESC"@,
        !trashed && k == SortKey::UpdatedAsc ==> r@ == "is_pinned DESC, updated_at ASC, id ASC"@,
        !trashed && k == SortKey::CreatedDesc ==> r@ == "is_pinned DESC, created_at DESC, id DESC"@,
        !trashed && k == SortKey::CopiesDesc ==> r@
            == "is_pinned DESC, copy_count DESC, updated_at DESC, id DESC"@,
        !trashed && k == SortKey::UpdatedDesc ==> r@ == "is_pinned DESC, updated_at DESC, id DESC"@,
    ensures
        r@ == order_sql(order_terms(trashed, k)),
{
    reveal_strlit("is_pinned");
    reveal_strlit("updated_at");
    reveal_strlit("created_at");
    reveal_strlit("copy_count");
    reveal_strlit("id");
    reveal_strlit(" DESC");
    reveal_strlit(" ASC");
    reveal_strlit(", ");
    reveal_with_fuel(order_sql, 5);
    let terms = order_terms(trashed, k);
    if trashed {
        match k {
            SortKey::UpdatedAsc => {
                reveal_strlit("updated_at ASC, id ASC");
                assert(r@ =~= order_sql(terms));
            },
            SortKey::CreatedDesc => {
                reveal_strlit("created_at DESC, id DESC");
                assert(r@ =~= order_sql(terms));
            },
            SortKey::CopiesDesc => {
                reveal_strlit("copy_count DESC, updated_at DESC, id DESC");
                assert(r@ =~= order_sql(terms));
            },
            SortKey::UpdatedDesc => {
                reveal_strlit("updated_at DESC, id DESC");
                assert(r@ =~= order_sql(terms));
            },
        }
    } else {
        match k {
            SortKey::UpdatedAsc => {
                reveal_strlit("is_pinned DESC, updated_at ASC, id ASC");
                assert(r@ =~= order_sql(terms));
            },
            SortKey::CreatedDesc => {
                reveal_strlit("is_pinned DESC, created_at DESC, id DESC");
                assert(r@ =~= order_sql(terms));
            },
            SortKey::CopiesDesc => {
                reveal_strlit("is_pinned DESC, copy_count DESC, updated_at DESC, id DESC");
                assert(r@ =~= order_sql(terms));
            },
            SortKey::UpdatedDesc => {
                reveal_strlit("is_pinned DESC, updated_at DESC, id DESC");
                assert(r@ =~= order_sql(terms));
            },
        }
    }
}


// ---------------------------------------------------------------------------
// Keyset cursor
// ---------------------------------------------------------------------------

/// Keyset cursor for list/search pagination. `Default` is "first page"
/// (no predicate, OFFSET 0). Fields beyond `id`/`updated_at` are only
/// required for the matching sort (`created_desc` / `copies_desc`).
#[derive(Debug, Default, Clone, Copy)]
pub struct PageCursor<'a> {
    pub pinned: Option<i32>,
    pub updated_at: Option<&'a str>,
    pub id: Option<i64>,
    pub created_at: Option<&'a str>,
    pub copy_count: Option<i32>,
}

/// The cursor row's ordering key (absent pin state counts as unpinned).
pub open spec fn cursor_key(c: PageCursor) -> RowKey {
    RowKey {
        pinned: match c.pinned {
            Some(p) => p as int,
            None => 0,
        },
        updated_at: match c.updated_at {
            Some(s) => s@,
            None => Seq::empty(),
        },
        created_at: match c.created_at {
            Some(s) => s@,
            None => Seq::empty(),
        },
        copy_count: match c.copy_count {
            Some(n) => n as int,
            None => 0,
        },
        id: match c.id {
            Some(i) => i as int,
            None => 0,
        },
    }
}

/// The cursor carries every column the sort's keyset predicate compares.
pub open spec fn cursor_ready(c: PageCursor, k: SortKey) -> bool {
    &&& c.id is Some
    &&& match k {
        SortKey::CreatedDesc => c.created_at is Some,
        SortKey::CopiesDesc => c.copy_count is Some && c.updated_at is Some,
        _ => c.updated_at is Some,
    }
}

pub open spec fn col_available(col: Col, c: PageCursor) -> bool {
    match col {
        Col::Pinned => true,
        Col::UpdatedAt => c.updated_at is Some,
        Col::CreatedAt => c.created_at is Some,
        Col::CopyCount => c.copy_count is Some,
        Col::Id => c.id is Some,
    }
}

proof fn lemma_ready_columns_available(c: PageCursor, trashed: bool, k: SortKey)
    requires
        cursor_ready(c, k),
    ensures
        forall|i: int|
            0 <= i < order_terms(trashed, k).len() ==> col_available(
                #[trigger] order_terms(trashed, k)[i].col,
                c,
            ),
{
}

impl<'a> PageCursor<'a> {
    /// Whether the cursor can drive a keyset page for `sort`.
    pub fn is_ready(self, sort: Option<&str>) -> (r: bool)
        ensures
            r == cursor_ready(self, sort_key_of(sort)),
    {
        if self.id.is_none() {
            return false;
        }
        match parse_sort(sort) {
            SortKey::CreatedDesc => self.created_at.is_some(),
            SortKey::CopiesDesc => self.copy_count.is_some() && self.updated_at.is_some(),
            _ => self.updated_at.is_some(),
        }
    }
}

/// The cursor's value for column `col`, as a bound parameter.
fn cursor_param(col: Col, c: &PageCursor) -> (p: SqlParam)
    requires
        col_available(col, *c),
    ensures
        p@ == col_value(col, cursor_key(*c)),
{
    match col {
        Col::Pinned => match c.pinned {
            Some(v) => SqlParam::Int(v as i64),
            None => SqlParam::Int(0),
        },
        Col::UpdatedAt => SqlParam::Text(c.updated_at.unwrap().to_owned()),
        Col::CreatedAt => SqlParam::Text(c.created_at.unwrap().to_owned()),
        Col::CopyCount => SqlParam::Int(c.copy_count.unwrap() as i64),
        Col::Id => SqlParam::Int(c.id.unwrap()),
    }
}

// ---------------------------------------------------------------------------
// Keyset predicate text
// ---------------------------------------------------------------------------

pub open spec fn op_sql(desc: bool, strict: bool) -> Seq<char> {
    if !strict {
        " = ?"@
    } else if desc {
        " < ?"@
    } else {
        " > ?"@
    }
}

fn op_sql_exec(desc: bool, strict: bool) -> (s: &'static str)
    ensures
        s@ == op_sql(desc, strict),
{
    if !strict {
        " = ?"
    } else if desc {
        " < ?"
    } else {
        " > ?"
    }
}

pub open spec fn cmp_sql(t: OrderTerm, strict: bool) -> Seq<char> {
    col_sql(t.col) + op_sql(t.desc, strict)
}

/// `c0 = ? AND c1 = ? AND ... c(i-1) = ? AND `
pub open spec fn eq_prefix_sql(terms: Seq<OrderTerm>, i: int) -> Seq<char>
    decreases i,
{
    if i <= 0 {
        Seq::empty()
    } else {
        eq_prefix_sql(terms, i - 1) + cmp_sql(terms[i - 1], false) + " AND "@
    }
}

/// The `i`-th disjunct: the first is the bare comparison `c0 op ?`, each
/// later one `(c0 = ? AND ... ci op ?)`.
pub open spec fn disjunct_sql(terms: Seq<OrderTerm>, i: int) -> Seq<char> {
    if i == 0 {
        cmp_sql(terms[0], true)
    } else {
        "("@ + eq_prefix_sql(terms, i) + cmp_sql(terms[i], true) + ")"@
    }
}

pub open spec fn disjuncts_sql(terms: Seq<OrderTerm>, n: int) -> Seq<char>
    decreases n,
{
    if n <= 0 {
        Seq::empty()
    } else if n == 1 {
        disjunct_sql(terms, 0)
    } else {
        disjuncts_sql(terms, n - 1) + " OR "@ + disjunct_sql(terms, n - 1)
    }
}

/// ` AND (c0 op ? OR (c0 = ? AND c1 op ?) OR ...)` for the trash order and
/// ` AND ( is_pinned < ? OR (...) OR ... )` for the active order (pinned first).
pub open spec fn keyset_sql(trashed: bool, terms: Seq<OrderTerm>) -> Seq<char> {
    if trashed {
        " AND ("@ + disjuncts_sql(terms, terms.len() as int) + ")"@
    } else {
        " AND ( "@ + disjuncts_sql(terms, terms.len() as int) + " )"@
    }
}

pub open spec fn prefix_params(terms: Seq<OrderTerm>, cur: RowKey, i: int) -> Seq<SqlValue>
    decreases i,
{
    if i <= 0 {
        Seq::empty()
    } else {
        prefix_params(terms, cur, i - 1).push(col_value(terms[i - 1].col, cur))
    }
}

pub open spec fn disjunct_params(terms: Seq<OrderTerm>, cur: RowKey, i: int) -> Seq<SqlValue> {
    prefix_params(terms, cur, i).push(col_value(terms[i].col, cur))
}

pub open spec fn disjuncts_params(terms: Seq<OrderTerm>, cur: RowKey, n: int) -> Seq<SqlValue>
    decreases n,
{
    if n <= 0 {
        Seq::empty()
    } else {
        disjuncts_params(terms, cur, n - 1) + disjunct_params(terms, cur, n - 1)
    }
}

/// Parameters bound by [`keyset_sql`], in placeholder order: the cursor's
/// value of each compared column.
pub open spec fn keyset_params(terms: Seq<OrderTerm>, cur: RowKey) -> Seq<SqlValue> {
    disjuncts_params(terms, cur, terms.len() as int)
}

/// Appends one disjunct `(c0 = ? AND ... ci op ?)` and its parameters.
fn push_disjunct(
    sql: &mut String,
    params: &mut Vec<SqlParam>,
    terms: &Vec<OrderTerm>,
    i: usize,
    cursor: &PageCursor,
)
    requires
        i < terms.len(),
        forall|m: int| 0 <= m < terms@.len() ==> col_available(#[trigger] terms@[m].col, *cursor),
    ensures
        final(sql)@ == old(sql)@ + disjunct_sql(terms@, i as int),
        params_view(final(params)@) == params_view(old(params)@) + disjunct_params(
            terms@,
            cursor_key(*cursor),
            i as int,
        ),
{
    let ghost t = terms@;
    let ghost cur = cursor_key(*cursor);
    let ghost sql0 = sql@;
    let ghost p0 = params_view(params@);
    if i == 0 {
        let t0 = terms[0];
        let ghost q0 = params@;
        sql.append(col_sql_exec(t0.col));
        sql.append(op_sql_exec(t0.desc, true));
        let p = cursor_param(t0.col, cursor);
        params.push(p);
        proof {
            lemma_params_view_push(q0, p);
            assert(prefix_params(t, cur, 0) =~= Seq::<SqlValue>::empty());
        }
        assert(sql@ =~= sql0 + disjunct_sql(t, 0));
        assert(params_view(params@) =~= p0 + disjunct_params(t, cur, 0));
        return;
    }
    sql.append("(");
    let mut j: usize = 0;
    while j < i
        invariant
            t == terms@,
            cur == cursor_key(*cursor),
            forall|m: int| 0 <= m < t.len() ==> col_available(#[trigger] t[m].col, *cursor),
            j <= i,
            i < terms.len(),
            sql@ == sql0 + "("@ + eq_prefix_sql(t, j as int),
            params_view(params@) == p0 + prefix_params(t, cur, j as int),
        decreases i - j,
    {
        let tj = terms[j];
        let ghost q1 = params@;
        sql.append(col_sql_exec(tj.col));
        sql.append(op_sql_exec(tj.desc, false));
        sql.append(" AND ");
        let p = cursor_param(tj.col, cursor);
        params.push(p);
        proof {
            lemma_params_view_push(q1, p);
        }
        j = j + 1;
        assert(sql@ =~= sql0 + "("@ + eq_prefix_sql(t, j as int));
        assert(params_view(params@) =~= p0 + prefix_params(t, cur, j as int));
    }
    let ti = terms[i];
    let ghost q2 = params@;
    sql.append(col_sql_exec(ti.col));
    sql.append(op_sql_exec(ti.desc, true));
    sql.append(")");
    let p = cursor_param(ti.col, cursor);
    params.push(p);
    proof {
        lemma_params_view_push(q2, p);
    }
    assert(sql@ =~= sql0 + disjunct_sql(t, i as int));
    assert(params_view(params@) =~= p0 + disjunct_params(t, cur, i as int));
}

/// Appends the `WHERE` fragment selecting the rows strictly after `cursor`
/// under `sort` (see [`lemma_keyset_selects_rows_after_cursor`]).
pub fn push_keyset_predicate(
    sql: &mut String,
    params: &mut Vec<SqlParam>,
    trashed: bool,
    sort: Option<&str>,
    cursor: PageCursor,
)
    requires
        cursor_ready(cursor, sort_key_of(sort)),
    ensures
        final(sql)@ == old(sql)@ + keyset_sql(trashed, order_terms(trashed, sort_key_of(sort))),
        params_view(final(params)@) == params_view(old(params)@) + keyset_params(
            order_terms(trashed, sort_key_of(sort)),
            cursor_key(cursor),
        ),
{
    let k = parse_sort(sort);
    let terms = order_terms_exec(trashed, k);
    let ghost cur = cursor_key(cursor);
    let ghost t = terms@;
    let ghost sql0 = sql@;
    let ghost p0 = params_view(params@);
    proof {
        lemma_ready_columns_available(cursor, trashed, k);
    }
    let ghost open: Seq<char> = if trashed { " AND ("@ } else { " AND ( "@ };
    if trashed {
        sql.append(" AND (");
    } else {
        sql.append(" AND ( ");
    }
    let mut i: usize = 0;
    while i < terms.len()
        invariant
            t == terms@,
            t == order_terms(trashed, k),
            cur == cursor_key(cursor),
            forall|m: int| 0 <= m < t.len() ==> col_available(#[trigger] t[m].col, cursor),
            i <= terms.len(),
            open == (if trashed { " AND ("@ } else { " AND ( "@ }),
            sql@ == sql0 + open + disjuncts_sql(t, i as int),
            params_view(params@) == p0 + disjuncts_params(t, cur, i as int),
        decreases terms.len() - i,
    {
        if i > 0 {
            sql.append(" OR ");
        }
        push_disjunct(sql, params, &terms, i, &cursor);
        i = i + 1;
        assert(sql@ =~= sql0 + open + disjuncts_sql(t, i as int));
        assert(params_view(params@) =~= p0 + disjuncts_params(t, cur, i as int));
    }
    if trashed {
        sql.append(")");
    } else {
        sql.append(" )");
    }
    assert(sql@ =~= sql0 + keyset_sql(trashed, t));
}


// ---------------------------------------------------------------------------
// Laws
// ---------------------------------------------------------------------------

/// Keyset paging neither skips nor repeats rows: for every sort, the keyset
/// predicate built from a cursor selects exactly the rows that the list's
/// `ORDER BY` places strictly after the cursor row.
pub proof fn lemma_keyset_selects_rows_after_cursor(
    trashed: bool,
    sort: Option<&str>,
    cursor: PageCursor,
    row: RowKey,
)
    ensures
        keyset_holds(order_terms(trashed, sort_key_of(sort)), cursor_key(cursor), row)
            == ordered_after(order_terms(trashed, sort_key_of(sort)), cursor_key(cursor), row),
{
    lemma_keyset_matches_order(order_terms(trashed, sort_key_of(sort)), cursor_key(cursor), row);
}

/// `text_lt` is transitive.
pub proof fn lemma_text_lt_transitive(a: Seq<char>, b: Seq<char>, c: Seq<char>)
    ensures
        text_lt(a, b) && text_lt(b, c) ==> text_lt(a, c),
    decreases a.len(),
{
    if a.len() > 0 && b.len() > 0 && c.len() > 0 && a[0] == b[0] && b[0] == c[0] {
        lemma_text_lt_transitive(a.drop_first(), b.drop_first(), c.drop_first());
    }
}

/// `text_lt` is a strict total order on distinct texts.
pub proof fn lemma_text_lt_total(a: Seq<char>, b: Seq<char>)
    ensures
        !text_lt(a, a),
        a != b ==> text_lt(a, b) != text_lt(b, a),
    decreases a.len(),
{
    if a.len() > 0 {
        lemma_text_lt_total(a.drop_first(), a.drop_first());
        if b.len() > 0 && a[0] == b[0] {
            lemma_text_lt_total(a.drop_first(), b.drop_first());
            if a != b {
                assert(a.drop_first() != b.drop_first()) by {
                    if a.drop_first() == b.drop_first() {
                        assert(a.len() == b.len());
                        assert forall|i: int| 0 <= i < a.len() implies a[i] == b[i] by {
                            if i > 0 {
                                assert(a[i] == a.drop_first()[i - 1]);
                                assert(b[i] == b.drop_first()[i - 1]);
                            }
                        }
                        assert(a =~= b);
                    }
                }
            }
        }
    } else if b.len() == 0 {
        assert(a =~= b);
    }
}

/// Two rows with different ids are never tied: the list order is total, so
/// exactly one of them comes first, and no row comes after itself.
pub proof fn lemma_list_order_total(trashed: bool, sort: Option<&str>, a: RowKey, b: RowKey)
    ensures
        !ordered_after(order_terms(trashed, sort_key_of(sort)), a, a),
        a.id != b.id ==> ordered_after(order_terms(trashed, sort_key_of(sort)), a, b)
            != ordered_after(order_terms(trashed, sort_key_of(sort)), b, a),
{
    lemma_order_total_terms(order_terms(trashed, sort_key_of(sort)), a, b);
}

proof fn lemma_order_total_terms(terms: Seq<OrderTerm>, a: RowKey, b: RowKey)
    requires
        terms.len() > 0,
        terms.last().col == Col::Id,
    ensures
        !ordered_after(terms, a, a),
        a.id != b.id ==> ordered_after(terms, a, b) != ordered_after(terms, b, a),
    decreases terms.len(),
{
    let t = terms[0];
    lemma_text_lt_total(a.updated_at, b.updated_at);
    lemma_text_lt_total(a.created_at, b.created_at);
    lemma_text_lt_total(a.updated_at, a.updated_at);
    lemma_text_lt_total(a.created_at, a.created_at);
    assert(!strictly_past(t, a, a));
    let rest = terms.drop_first();
    if terms.len() > 1 {
        assert(rest.last() == terms.last());
        lemma_order_total_terms(rest, a, b);
    } else {
        assert(!ordered_after(rest, a, a));
        assert(!ordered_after(rest, a, b));
        assert(!ordered_after(rest, b, a));
        assert(t.col == Col::Id);
    }
}


// ---------------------------------------------------------------------------
// Pagination tail, filters and search predicates
// ---------------------------------------------------------------------------

/// Upper bound for caller-supplied page sizes (IPC / sync).
pub const MAX_PAGE_SIZE: i32 = 500;

pub open spec fn clamp_spec(limit: i32) -> i32 {
    if limit < 1 {
        1
    } else if limit > MAX_PAGE_SIZE {
        MAX_PAGE_SIZE
    } else {
        limit
    }
}

/// Clamp a page size into `[1, MAX_PAGE_SIZE]`.
pub fn clamp_page_limit(limit: i32) -> (r: i32)
    ensures
        r == clamp_spec(limit),
        1 <= r <= MAX_PAGE_SIZE,
{
    if limit < 1 {
        1
    } else if limit > MAX_PAGE_SIZE {
        MAX_PAGE_SIZE
    } else {
        limit
    }
}

/// Largest page a caller of the record list may ask for.
pub const REQUEST_PAGE_MAX: i32 = 200;

/// Page size used when a caller names none.
pub const REQUEST_PAGE_DEFAULT: i32 = 60;

/// Most ids one batch request acts on.
pub const MAX_BATCH_IDS: usize = 1000;

/// The page size a list or search request gets: its own (60 when it names
/// none), clamped into `[1, REQUEST_PAGE_MAX]`.
pub fn request_page_limit(limit: Option<i32>) -> (r: i32)
    ensures
        ({
            let l = match limit {
                Some(v) => v,
                None => REQUEST_PAGE_DEFAULT,
            };
            r == (if l < 1 {
                1
            } else if l > REQUEST_PAGE_MAX {
                REQUEST_PAGE_MAX
            } else {
                l
            })
        }),
{
    let l = match limit {
        Some(v) => v,
        None => REQUEST_PAGE_DEFAULT,
    };
    if l < 1 {
        1
    } else if l > REQUEST_PAGE_MAX {
        REQUEST_PAGE_MAX
    } else {
        l
    }
}

/// The ids a batch request acts on: the first `MAX_BATCH_IDS` of them.
pub fn cap_ids(ids: Vec<i64>) -> (r: Vec<i64>)
    ensures
        r@ == (if ids@.len() <= MAX_BATCH_IDS {
            ids@
        } else {
            ids@.take(MAX_BATCH_IDS as int)
        }),
{
    if ids.len() <= MAX_BATCH_IDS {
        return ids;
    }
    let mut out: Vec<i64> = Vec::new();
    let mut i: usize = 0;
    while i < MAX_BATCH_IDS
        invariant
            0 <= i <= MAX_BATCH_IDS,
            ids@.len() > MAX_BATCH_IDS,
            out@ == ids@.take(i as int),
        decreases MAX_BATCH_IDS - i,
    {
        out.push(ids[i]);
        i = i + 1;
    }
    out
}

/// Text appended by [`push_pagination_tail`].
pub open spec fn pagination_tail_sql(use_keyset: bool, trashed: bool, k: SortKey) -> Seq<char> {
    let order = " ORDER BY "@ + order_sql(order_terms(trashed, k));
    if use_keyset {
        keyset_sql(trashed, order_terms(trashed, k)) + order + " LIMIT ?"@
    } else {
        order + " LIMIT ? OFFSET ?"@
    }
}

/// Parameters appended by [`push_pagination_tail`].
pub open spec fn pagination_tail_params(
    use_keyset: bool,
    trashed: bool,
    k: SortKey,
    cursor: PageCursor,
    limit: i32,
    offset: i32,
) -> Seq<SqlValue> {
    if use_keyset {
        keyset_params(order_terms(trashed, k), cursor_key(cursor)).push(
            SqlValue::Int(clamp_spec(limit) as int),
        )
    } else {
        seq![
            SqlValue::Int(clamp_spec(limit) as int),
            SqlValue::Int(if offset < 0 { 0 } else { offset as int }),
        ]
    }
}

/// Append the pagination tail shared by list + search queries: either the
/// sort's keyset predicate or an OFFSET clause, then ORDER BY and LIMIT.
pub fn push_pagination_tail(
    sql: &mut String,
    params: &mut Vec<SqlParam>,
    use_keyset: bool,
    cursor: PageCursor,
    limit: i32,
    offset: i32,
    trashed: bool,
    sort: Option<&str>,
)
    requires
        use_keyset ==> cursor_ready(cursor, sort_key_of(sort)),
    ensures
        final(sql)@ == old(sql)@ + pagination_tail_sql(use_keyset, trashed, sort_key_of(sort)),
        params_view(final(params)@) == params_view(old(params)@) + pagination_tail_params(
            use_keyset,
            trashed,
            sort_key_of(sort),
            cursor,
            limit,
            offset,
        ),
{
    let ghost sql0 = sql@;
    let ghost p0 = params_view(params@);
    if use_keyset {
        push_keyset_predicate(sql, params, trashed, sort, cursor);
        sql.append(" ORDER BY ");
        sql.append(order_by_clause(trashed, sort));
        sql.append(" LIMIT ?");
        let ghost q = params@;
        let p = SqlParam::Int(clamp_page_limit(limit) as i64);
        params.push(p);
        proof {
            lemma_params_view_push(q, p);
        }
    } else {
        sql.append(" ORDER BY ");
        sql.append(order_by_clause(trashed, sort));
        sql.append(" LIMIT ? OFFSET ?");
        let ghost q = params@;
        let p = SqlParam::Int(clamp_page_limit(limit) as i64);
        params.push(p);
        proof {
            lemma_params_view_push(q, p);
        }
        let ghost q2 = params@;
        let p2 = SqlParam::Int(if offset < 0 { 0 } else { offset as i64 });
        params.push(p2);
        proof {
            lemma_params_view_push(q2, p2);
        }
    }
    assert(sql@ =~= sql0 + pagination_tail_sql(use_keyset, trashed, sort_key_of(sort)));
    assert(params_view(params@) =~= p0 + pagination_tail_params(
        use_keyset,
        trashed,
        sort_key_of(sort),
        cursor,
        limit,
        offset,
    ));
}

/// Text appended by [`push_short_query_predicate`].
pub open spec fn short_query_sql(include_tags: bool, search_content: bool) -> Seq<char> {
    (if search_content {
        "instr(content, ?) > 0 OR "@
    } else {
        Seq::empty()
    }) + "instr(alias, ?) > 0 OR instr(source_app, ?) > 0 OR instr(source_window, ?) > 0"@ + (
    if include_tags {
        " OR EXISTS (SELECT 1 FROM record_tags rt INNER JOIN tags t ON t.id = rt.tag_id WHERE rt.record_id = records.id AND instr(t.name, ?) > 0)"@
    } else {
        Seq::empty()
    })
}

/// Number of `?` placeholders in [`short_query_sql`].
pub open spec fn short_query_arity(include_tags: bool, search_content: bool) -> nat {
    (if search_content {
        1nat
    } else {
        0nat
    }) + 3 + (if include_tags {
        1nat
    } else {
        0nat
    })
}

/// Short (1-2 char) search: one `instr` pass over the short columns (and the
/// content column when `search_content`), plus tag names when `include_tags`.
/// Every placeholder binds the query text.
pub fn push_short_query_predicate(
    sql: &mut String,
    params: &mut Vec<SqlParam>,
    query: &str,
    include_tags: bool,
    search_content: bool,
)
    ensures
        final(sql)@ == old(sql)@ + short_query_sql(include_tags, search_content),
        params_view(final(params)@) == params_view(old(params)@) + Seq::new(
            short_query_arity(include_tags, search_content),
            |i: int| SqlValue::Text(query@),
        ),
{
    let ghost sql0 = sql@;
    let ghost p0 = params_view(params@);
    let ghost n0 = params@.len();
    if search_content {
        sql.append("instr(content, ?) > 0 OR ");
        params.push(SqlParam::Text(query.to_owned()));
    }
    sql.append("instr(alias, ?) > 0 OR instr(source_app, ?) > 0 OR instr(source_window, ?) > 0");
    params.push(SqlParam::Text(query.to_owned()));
    params.push(SqlParam::Text(query.to_owned()));
    params.push(SqlParam::Text(query.to_owned()));
    if include_tags {
        sql.append(
            " OR EXISTS (SELECT 1 FROM record_tags rt INNER JOIN tags t ON t.id = rt.tag_id WHERE rt.record_id = records.id AND instr(t.name, ?) > 0)",
        );
        params.push(SqlParam::Text(query.to_owned()));
    }
    assert(sql@ =~= sql0 + short_query_sql(include_tags, search_content));
    assert(params_view(params@) =~= p0 + Seq::new(
        short_query_arity(include_tags, search_content),
        |i: int| SqlValue::Text(query@),
    ));
}

/// The tag filter applies only with tags enabled and a non-empty tag name.
pub open spec fn tag_filter_applies(tag_name: Option<&str>, include_tags: bool) -> bool {
    include_tags && match tag_name {
        Some(t) => t@.len() > 0,
        None => false,
    }
}

pub open spec fn tag_filter_sql() -> Seq<char> {
    " AND id IN (SELECT rt.record_id FROM record_tags rt INNER JOIN tags t ON t.id = rt.tag_id WHERE t.name = ?)"@
}

/// Restrict to records linked to the tag named `tag_name`.
pub fn push_tag_filter(
    sql: &mut String,
    params: &mut Vec<SqlParam>,
    tag_name: Option<&str>,
    include_tags: bool,
)
    ensures
        tag_filter_applies(tag_name, include_tags) ==> final(sql)@ == old(sql)@ + tag_filter_sql()
            && params_view(final(params)@) == params_view(old(params)@).push(
            SqlValue::Text(tag_name.unwrap()@),
        ),
        !tag_filter_applies(tag_name, include_tags) ==> final(sql)@ == old(sql)@ && final(params)@
            == old(params)@,
{
    if include_tags {
        if let Some(tag) = tag_name {
            if !tag.is_empty() {
                sql.append(
                    " AND id IN (SELECT rt.record_id FROM record_tags rt INNER JOIN tags t ON t.id = rt.tag_id WHERE t.name = ?)",
                );
                let ghost q = params@;
                let p = SqlParam::Text(tag.to_owned());
                params.push(p);
                proof {
                    lemma_params_view_push(q, p);
                }
            }
        }
    }
}

/// `?,?,...` with `n` placeholders.
pub open spec fn placeholders(n: nat) -> Seq<char>
    decreases n,
{
    if n == 0 {
        Seq::empty()
    } else if n == 1 {
        "?"@
    } else {
        placeholders((n - 1) as nat) + ","@ + "?"@
    }
}

/// Build a comma-joined `?,?,...` placeholder list for an `IN (...)` clause.
pub fn id_placeholders(n: usize) -> (s: String)
    ensures
        s@ == placeholders(n as nat),
{
    let mut s = String::new();
    let mut i: usize = 0;
    while i < n
        invariant
            i <= n,
            s@ == placeholders(i as nat),
        decreases n - i,
    {
        if i > 0 {
            s.append(",");
        }
        s.append("?");
        i = i + 1;
        assert(s@ =~= placeholders(i as nat));
    }
    s
}


// ---------------------------------------------------------------------------
// LIKE escaping and FTS tokens
// ---------------------------------------------------------------------------

pub open spec fn escape_like_char(c: char) -> Seq<char> {
    if c == '\\' || c == '%' || c == '_' {
        seq!['\\', c]
    } else {
        seq![c]
    }
}

/// Every `\`, `%` and `_` prefixed with a backslash.
pub open spec fn escape_like_seq(s: Seq<char>) -> Seq<char>
    decreases s.len(),
{
    if s.len() == 0 {
        Seq::empty()
    } else {
        escape_like_seq(s.drop_last()) + escape_like_char(s.last())
    }
}

/// Escape `%`, `_`, `\` for use with `LIKE ... ESCAPE '\'`.
pub fn escape_like(s: &str) -> (r: String)
    ensures
        r@ == escape_like_seq(s@),
{
    let v = chars_of(s);
    let mut r = String::new();
    let mut i: usize = 0;
    while i < v.len()
        invariant
            i <= v.len(),
            r@ == escape_like_seq(v@.take(i as int)),
        decreases v.len() - i,
    {
        let c = v[i];
        if c == '\\' || c == '%' || c == '_' {
            push_char(&mut r, '\\');
        }
        push_char(&mut r, c);
        assert(v@.take(i + 1).drop_last() =~= v@.take(i as int));
        i = i + 1;
        assert(r@ =~= escape_like_seq(v@.take(i as int)));
    }
    assert(v@.take(v.len() as int) =~= v@);
    r
}

pub open spec fn double_quotes_seq(s: Seq<char>) -> Seq<char>
    decreases s.len(),
{
    if s.len() == 0 {
        Seq::empty()
    } else {
        double_quotes_seq(s.drop_last()) + if s.last() == '"' {
            seq!['"', '"']
        } else {
            seq![s.last()]
        }
    }
}

/// The FTS5 trigram token for `query`: absent for fewer than 3 characters
/// (after trimming), else the trimmed query in double quotes with inner
/// quotes doubled.
pub open spec fn fts_match_spec(query: Seq<char>) -> Option<Seq<char>> {
    let q = trim_seq(query);
    if q.len() < 3 {
        None
    } else {
        Some(seq!['"'] + double_quotes_seq(q) + seq!['"'])
    }
}

/// FTS5 trigram: substring MATCH needs >= 3 chars. Returns the quoted token.
pub fn build_fts_match(query: &str) -> (r: Option<String>)
    ensures
        match r {
            Some(s) => fts_match_spec(query@) == Some(s@),
            None => fts_match_spec(query@) is None,
        },
{
    let q = trim_to_chars(query);
    if q.len() < 3 {
        return None;
    }
    let mut r = String::new();
    push_char(&mut r, '"');
    let mut i: usize = 0;
    while i < q.len()
        invariant
            i <= q.len(),
            r@ == seq!['"'] + double_quotes_seq(q@.take(i as int)),
        decreases q.len() - i,
    {
        let c = q[i];
        if c == '"' {
            push_char(&mut r, '"');
        }
        push_char(&mut r, c);
        assert(q@.take(i + 1).drop_last() =~= q@.take(i as int));
        i = i + 1;
        assert(r@ =~= seq!['"'] + double_quotes_seq(q@.take(i as int)));
    }
    push_char(&mut r, '"');
    assert(q@.take(q.len() as int) =~= q@);
    assert(r@ =~= seq!['"'] + double_quotes_seq(q@) + seq!['"']);
    Some(r)
}

/// Column filter that keeps the FTS `tags` column out of the match.
pub open spec fn fts_no_tags_prefix() -> Seq<char> {
    "{content alias source_app source_window}: "@
}

pub open spec fn fts_match_expr_spec(query: Seq<char>, include_tags: bool) -> Option<Seq<char>> {
    match fts_match_spec(query) {
        None => None,
        Some(token) => if include_tags {
            Some(token)
        } else {
            Some(fts_no_tags_prefix() + token)
        },
    }
}

/// FTS MATCH expression. When `include_tags` is false, limit columns so tag
/// names are not searchable.
pub fn build_fts_match_expr(query: &str, include_tags: bool) -> (r: Option<String>)
    ensures
        match r {
            Some(s) => fts_match_expr_spec(query@, include_tags) == Some(s@),
            None => fts_match_expr_spec(query@, include_tags) is None,
        },
{
    let token = build_fts_match(query);
    match token {
        None => None,
        Some(t) => if include_tags {
            Some(t)
        } else {
            let mut r = String::new();
            r.append("{content alias source_app source_window}: ");
            r.append(t.as_str());
            Some(r)
        },
    }
}

// ---------------------------------------------------------------------------
// Record list query
// ---------------------------------------------------------------------------

/// Full row including rich HTML (detail / paste / export).
pub const RECORD_COLS: &'static str = "id, content, content_type, source_app, source_window, hash, copy_count, is_favorite, is_pinned, is_sensitive, is_trashed, auto_expire_at, created_at, updated_at, media_path, thumb_path, width, height, content_html, content_len, alias, source_name, source_device_id";

/// List/search: omit HTML, truncate content for IPC/memory.
pub const RECORD_COLS_LIST: &'static str = "id, substr(content, 1, 400) as content, content_type, source_app, source_window, hash, copy_count, is_favorite, is_pinned, is_sensitive, is_trashed, auto_expire_at, created_at, updated_at, media_path, thumb_path, width, height, NULL as content_html, content_len, alias, source_name, source_device_id";

/// The content-type facet applies unless absent, empty or `all`.
pub open spec fn type_filter_applies(content_type: Option<&str>) -> bool {
    match content_type {
        Some(ct) => ct@.len() > 0 && ct@ != "all"@,
        None => false,
    }
}

/// Text of the list query built by [`build_list_query`].
pub open spec fn list_query_sql(
    trashed: bool,
    content_type: Option<&str>,
    favorites_only: bool,
    tag_name: Option<&str>,
    k: SortKey,
    use_keyset: bool,
    include_tags: bool,
) -> Seq<char> {
    "SELECT "@ + RECORD_COLS_LIST@ + " FROM records WHERE is_trashed = ?"@ + (if type_filter_applies(
        content_type,
    ) {
        " AND content_type = ?"@
    } else {
        Seq::empty()
    }) + (if favorites_only {
        " AND is_favorite = 1"@
    } else {
        Seq::empty()
    }) + (if tag_filter_applies(tag_name, include_tags) {
        tag_filter_sql()
    } else {
        Seq::empty()
    }) + pagination_tail_sql(use_keyset, trashed, k)
}

/// Parameters of the list query built by [`build_list_query`].
pub open spec fn list_query_params(
    limit: i32,
    offset: i32,
    trashed: bool,
    content_type: Option<&str>,
    tag_name: Option<&str>,
    k: SortKey,
    cursor: PageCursor,
    use_keyset: bool,
    include_tags: bool,
) -> Seq<SqlValue> {
    seq![SqlValue::Int(if trashed { 1 } else { 0 })] + (if type_filter_applies(content_type) {
        seq![SqlValue::Text(content_type.unwrap()@)]
    } else {
        Seq::empty()
    }) + (if tag_filter_applies(tag_name, include_tags) {
        seq![SqlValue::Text(tag_name.unwrap()@)]
    } else {
        Seq::empty()
    }) + pagination_tail_params(use_keyset, trashed, k, cursor, limit, offset)
}

/// SQL and parameters of one page of the record list (`get_records`): the
/// trash flag, type / favorite / tag facets, then a keyset page when the
/// cursor is ready for the sort, else an OFFSET page.
pub fn build_list_query(
    limit: i32,
    offset: i32,
    trashed: bool,
    content_type: Option<&str>,
    favorites_only: bool,
    tag_name: Option<&str>,
    sort: Option<&str>,
    cursor: PageCursor,
    include_tags: bool,
) -> (r: (String, Vec<SqlParam>))
    ensures
        r.0@ == list_query_sql(
            trashed,
            content_type,
            favorites_only,
            tag_name,
            sort_key_of(sort),
            cursor_ready(cursor, sort_key_of(sort)),
            include_tags,
        ),
        params_view(r.1@) == list_query_params(
            limit,
            offset,
            trashed,
            content_type,
            tag_name,
            sort_key_of(sort),
            cursor,
            cursor_ready(cursor, sort_key_of(sort)),
            include_tags,
        ),
{
    let mut sql = String::new();
    sql.append("SELECT ");
    sql.append(RECORD_COLS_LIST);
    sql.append(" FROM records WHERE is_trashed = ?");
    let mut params: Vec<SqlParam> = Vec::new();
    params.push(SqlParam::Int(if trashed { 1 } else { 0 }));
    let ghost s1 = sql@;
    let ghost p1 = params_view(params@);
    assert(p1 =~= seq![SqlValue::Int(if trashed { 1 } else { 0 })]);
    if let Some(ct) = content_type {
        if !ct.is_empty() && !str_eq(ct, "all") {
            sql.append(" AND content_type = ?");
            let ghost q = params@;
            let p = SqlParam::Text(ct.to_owned());
            params.push(p);
            proof {
                lemma_params_view_push(q, p);
            }
        }
    }
    let ghost s2 = sql@;
    let ghost p2 = params_view(params@);
    assert(s2 =~= s1 + (if type_filter_applies(content_type) {
        " AND content_type = ?"@
    } else {
        Seq::empty()
    }));
    assert(p2 =~= p1 + (if type_filter_applies(content_type) {
        seq![SqlValue::Text(content_type.unwrap()@)]
    } else {
        Seq::empty()
    }));
    if favorites_only {
        sql.append(" AND is_favorite = 1");
    }
    let ghost s3 = sql@;
    push_tag_filter(&mut sql, &mut params, tag_name, include_tags);
    let ghost s4 = sql@;
    let ghost p4 = params_view(params@);
    assert(p4 =~= p2 + (if tag_filter_applies(tag_name, include_tags) {
        seq![SqlValue::Text(tag_name.unwrap()@)]
    } else {
        Seq::empty()
    }));
    let use_keyset = cursor.is_ready(sort);
    push_pagination_tail(&mut sql, &mut params, use_keyset, cursor, limit, offset, trashed, sort);
    assert(sql@ =~= list_query_sql(
        trashed,
        content_type,
        favorites_only,
        tag_name,
        sort_key_of(sort),
        use_keyset,
        include_tags,
    ));
    assert(params_view(params@) =~= list_query_params(
        limit,
        offset,
        trashed,
        content_type,
        tag_name,
        sort_key_of(sort),
        cursor,
        use_keyset,
        include_tags,
    ));
    (sql, params)
}

} // verus!
