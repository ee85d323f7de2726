//! The font picker's list of CJK-capable families: each family once, the
//! common CJK families first, each block in case-insensitive order (ties
//! keep the system's order). Which families are installed and which of
//! them cover CJK is read from the system by the caller.
use vstd::prelude::*;

use crate::query::{lemma_text_lt_total, lemma_text_lt_transitive, text_less, text_lt};
use crate::text::{chars_contain, chars_of, contains_seq, lowercase, str_eq, to_lowercase};

verus! {

/// Common CJK families float to the top of the picker when installed;
/// matched against the lowercased family name.
pub const COMMON_CJK_FRAGMENTS: [&'static str; 12] = [
    "microsoft yahei",
    "微软雅黑",
    "simhei",
    "黑体",
    "simsun",
    "宋体",
    "kaiti",
    "楷体",
    "dengxian",
    "等线",
    "noto sans sc",
    "noto serif sc",
];

/// Whether a lowercased family name holds one of the common fragments.
pub open spec fn is_common_key(key: Seq<char>) -> bool {
    exists|k: int| 0 <= k < 12 && contains_seq(key, (#[trigger] COMMON_CJK_FRAGMENTS@[k])@)
}

/// Executable [`is_common_key`].
pub fn is_common_family(key: &str) -> (r: bool)
    ensures
        r == is_common_key(key@),
{
    let hay = chars_of(key);
    let mut k: usize = 0;
    while k < 12
        invariant
            0 <= k <= 12,
            hay@ == key@,
            forall|j: int| 0 <= j < k ==> !contains_seq(key@, (#[trigger] COMMON_CJK_FRAGMENTS@[j])@),
        decreases 12 - k,
    {
        let needle = chars_of(COMMON_CJK_FRAGMENTS[k]);
        if chars_contain(&hay, &needle) {
            return true;
        }
        k = k + 1;
    }
    false
}

/// `a` sorts no later than `b` (case folding is done by the caller).
pub open spec fn key_le(a: Seq<char>, b: Seq<char>) -> bool {
    !text_lt(b, a)
}

/// The texts of a list of strings.
pub open spec fn texts(v: Seq<String>) -> Seq<Seq<char>> {
    v.map_values(|s: String| s@)
}

/// `r` is `g` in case-insensitive order, ties in the order of `g`: the
/// same names (each once), ordered by lowercase name, and two names with
/// the same lowercase form in the order they have in `g`.
pub open spec fn sorted_stably(r: Seq<Seq<char>>, g: Seq<Seq<char>>) -> bool {
    &&& r.len() == g.len()
    &&& forall|i: int| 0 <= i < r.len() ==> g.contains(#[trigger] r[i])
    &&& forall|i: int, j: int| 0 <= i < j < r.len() ==> r[i] != r[j]
    &&& forall|i: int, j: int|
        0 <= i < j < r.len() ==> key_le(lowercase(#[trigger] r[i]), lowercase(#[trigger] r[j]))
    &&& forall|i: int, j: int|
        0 <= i < j < r.len() && lowercase(#[trigger] r[i]) == lowercase(#[trigger] r[j]) ==> exists|
            a: int,
            b: int,
        | 0 <= a < b < g.len() && #[trigger] g[a] == r[i] && #[trigger] g[b] == r[j]
}

/// Each name at most once.
pub open spec fn distinct_texts(g: Seq<Seq<char>>) -> bool {
    forall|i: int, j: int| 0 <= i < j < g.len() ==> g[i] != g[j]
}

/// Sort distinct names by lowercase name, ties in input order (insertion
/// sort; the list is short).
fn sort_stably(g: &Vec<String>) -> (r: Vec<String>)
    requires
        distinct_texts(texts(g@)),
    ensures
        sorted_stably(texts(r@), texts(g@)),
{
    let ghost gv = texts(g@);
    let mut out: Vec<String> = Vec::new();
    let mut keys: Vec<String> = Vec::new();
    let ghost mut pos: Seq<int> = Seq::empty();
    let mut k: usize = 0;
    while k < g.len()
        invariant
            0 <= k <= g.len(),
            gv == texts(g@),
            distinct_texts(gv),
            out@.len() == k && keys@.len() == k && pos.len() == k,
            forall|i: int| 0 <= i < k ==> (#[trigger] keys@[i])@ == lowercase(out@[i]@),
            forall|i: int| 0 <= i < k ==> 0 <= #[trigger] pos[i] < k && out@[i]@ == gv[pos[i]],
            forall|i: int, j: int| 0 <= i < j < k ==> pos[i] != pos[j],
            forall|i: int, j: int|
                #![trigger keys@[i], keys@[j]]
                0 <= i < j < k ==> key_le(keys@[i]@, keys@[j]@),
            forall|i: int, j: int|
                #![trigger keys@[i], keys@[j]]
                0 <= i < j < k && keys@[i]@ == keys@[j]@ ==> pos[i] < pos[j],
        decreases g.len() - k,
    {
        let name = g[k].clone();
        let key = to_lowercase(name.as_str());
        let mut p: usize = 0;
        let mut found = false;
        while p < keys.len() && !found
            invariant
                0 <= p <= keys@.len(),
                found ==> p < keys@.len() && text_lt(key@, keys@[p as int]@),
                forall|q: int| 0 <= q < p ==> !text_lt(key@, (#[trigger] keys@[q])@),
            decreases keys@.len() - p + (if found { 0int } else { 1int }),
        {
            if text_less(key.as_str(), keys[p].as_str()) {
                found = true;
            } else {
                p = p + 1;
            }
        }
        let ghost old_out = out@;
        let ghost old_keys = keys@;
        let ghost old_pos = pos;
        proof {
            // Everything from `p` on sorts strictly after the new key.
            assert forall|q: int| p <= q < k implies text_lt(key@, (#[trigger] old_keys[q])@) by {
                assert(text_lt(key@, old_keys[p as int]@));
                if q > p {
                    assert(key_le(old_keys[p as int]@, old_keys[q]@));
                    lemma_text_lt_transitive(key@, old_keys[p as int]@, old_keys[q]@);
                    lemma_text_lt_total(old_keys[p as int]@, old_keys[q]@);
                }
            }
        }
        out.insert(p, name);
        keys.insert(p, key);
        proof {
            pos = old_pos.insert(p as int, k as int);
            assert forall|i: int| 0 <= i < k + 1 implies (#[trigger] keys@[i])@ == lowercase(out@[i]@) by {
                if i > p {
                    assert(keys@[i] == old_keys[i - 1] && out@[i] == old_out[i - 1]);
                }
            }
            assert forall|i: int| 0 <= i < k + 1 implies 0 <= #[trigger] pos[i] < k + 1 && out@[i]@
                == gv[pos[i]] by {
                if i < p {
                    assert(pos[i] == old_pos[i] && out@[i] == old_out[i]);
                } else if i > p {
                    assert(pos[i] == old_pos[i - 1] && out@[i] == old_out[i - 1]);
                } else {
                    assert(gv[k as int] == g@[k as int]@);
                }
            }
            assert forall|i: int, j: int| 0 <= i < j < k + 1 implies pos[i] != pos[j] by {
                if i != p && j != p {
                    let oi = if i < p { i } else { i - 1 };
                    let oj = if j < p { j } else { j - 1 };
                    assert(pos[i] == old_pos[oi] && pos[j] == old_pos[oj]);
                } else if i == p {
                    let oj = if j < p { j } else { j - 1 };
                    assert(pos[j] == old_pos[oj]);
                } else {
                    let oi = if i < p { i } else { i - 1 };
                    assert(pos[i] == old_pos[oi]);
                }
            }
            assert forall|i: int, j: int|
                #![trigger keys@[i], keys@[j]]
                0 <= i < j < k + 1 implies key_le(keys@[i]@, keys@[j]@) && (keys@[i]@ == keys@[j]@
                ==> pos[i] < pos[j]) by {
                if i != p && j != p {
                    let oi = if i < p { i } else { i - 1 };
                    let oj = if j < p { j } else { j - 1 };
                    assert(keys@[i] == old_keys[oi] && keys@[j] == old_keys[oj]);
                    assert(pos[i] == old_pos[oi] && pos[j] == old_pos[oj]);
                } else if i == p {
                    // The new key against a later (old) key.
                    let oj = j - 1;
                    assert(keys@[j] == old_keys[oj] && keys@[i]@ == key@);
                    assert(text_lt(key@, old_keys[oj]@));
                    lemma_text_lt_total(key@, old_keys[oj]@);
                    lemma_text_lt_total(key@, key@);
                } else {
                    // An earlier (old) key against the new one.
                    assert(keys@[i] == old_keys[i] && keys@[j]@ == key@);
                    assert(pos[i] == old_pos[i] && pos[j] == k);
                }
            }
        }
        k = k + 1;
    }
    proof {
        let rv = texts(out@);
        assert forall|i: int| 0 <= i < rv.len() implies gv.contains(#[trigger] rv[i]) by {
            assert(rv[i] == gv[pos[i]]);
        }
        assert forall|i: int, j: int| 0 <= i < j < rv.len() implies rv[i] != rv[j] by {
            assert(rv[i] == gv[pos[i]] && rv[j] == gv[pos[j]]);
            assert(pos[i] != pos[j]);
        }
        assert forall|i: int, j: int| 0 <= i < j < rv.len() implies key_le(
            lowercase(#[trigger] rv[i]),
            lowercase(#[trigger] rv[j]),
        ) by {
            assert(keys@[i]@ == lowercase(out@[i]@) && keys@[j]@ == lowercase(out@[j]@));
        }
        assert forall|i: int, j: int|
            0 <= i < j < rv.len() && lowercase(#[trigger] rv[i]) == lowercase(
                #[trigger] rv[j],
            ) implies exists|a: int, b: int|
            0 <= a < b < gv.len() && #[trigger] gv[a] == rv[i] && #[trigger] gv[b] == rv[j] by {
            assert(keys@[i]@ == lowercase(out@[i]@) && keys@[j]@ == lowercase(out@[j]@));
            assert(pos[i] < pos[j]);
            assert(gv[pos[i]] == rv[i] && gv[pos[j]] == rv[j]);
        }
    }
    out
}

/// Whether family `i` is the first one with its name.
pub open spec fn first_with_name(fams: Seq<(String, bool)>, i: int) -> bool {
    forall|j: int| 0 <= j < i ==> fams[j].0@ != fams[i].0@
}

/// Names of the first `n` families that are listed: the first family of
/// each name, when it covers CJK, in the common block (`common`) or not.
pub open spec fn picked_upto(fams: Seq<(String, bool)>, common: bool, n: int) -> Seq<Seq<char>>
    decreases n,
{
    if n <= 0 || n > fams.len() {
        Seq::empty()
    } else {
        let prev = picked_upto(fams, common, n - 1);
        let f = fams[n - 1];
        if first_with_name(fams, n - 1) && f.1 && is_common_key(lowercase(f.0@)) == common {
            prev.push(f.0@)
        } else {
            prev
        }
    }
}

/// Whether a family before `i` has the name of family `i`.
fn name_seen_before(fams: &Vec<(String, bool)>, i: usize) -> (r: bool)
    requires
        i < fams@.len(),
    ensures
        r == !first_with_name(fams@, i as int),
{
    let mut j: usize = 0;
    while j < i
        invariant
            0 <= j <= i < fams@.len(),
            forall|q: int| 0 <= q < j ==> fams@[q].0@ != fams@[i as int].0@,
        decreases i - j,
    {
        if str_eq(fams[j].0.as_str(), fams[i].0.as_str()) {
            return true;
        }
        j = j + 1;
    }
    false
}

/// The picker's list from the system's families `(name, covers CJK)` in
/// enumeration order: each name once (its first family decides), only
/// CJK-covering families, the common CJK families first, each block in
/// case-insensitive order with ties in enumeration order.
pub fn order_cjk_families(families: &Vec<(String, bool)>) -> (r: Vec<String>)
    ensures
        ({
            let c = picked_upto(families@, true, families@.len() as int);
            let o = picked_upto(families@, false, families@.len() as int);
            &&& r@.len() == c.len() + o.len()
            &&& sorted_stably(texts(r@).take(c.len() as int), c)
            &&& sorted_stably(texts(r@).skip(c.len() as int), o)
        }),
{
    let ghost fams = families@;
    let mut common: Vec<String> = Vec::new();
    let mut rest: Vec<String> = Vec::new();
    let mut i: usize = 0;
    while i < families.len()
        invariant
            0 <= i <= families@.len(),
            fams == families@,
            texts(common@) == picked_upto(fams, true, i as int),
            texts(rest@) == picked_upto(fams, false, i as int),
            forall|k: int|
                0 <= k < common@.len() ==> exists|j: int|
                    0 <= j < i && fams[j].0@ == (#[trigger] common@[k])@,
            forall|k: int|
                0 <= k < rest@.len() ==> exists|j: int|
                    0 <= j < i && fams[j].0@ == (#[trigger] rest@[k])@,
            distinct_texts(texts(common@)),
            distinct_texts(texts(rest@)),
        decreases families@.len() - i,
    {
        let ghost before_c = common@;
        let ghost before_r = rest@;
        if families[i].1 && !name_seen_before(families, i) {
            let key = to_lowercase(families[i].0.as_str());
            let name = families[i].0.clone();
            if is_common_family(key.as_str()) {
                common.push(name);
                proof {
                    assert(texts(common@) =~= texts(before_c).push(fams[i as int].0@));
                    assert forall|a: int, b: int|
                        0 <= a < b < texts(common@).len() implies texts(common@)[a] != texts(
                            common@,
                        )[b] by {
                        if b == before_c.len() {
                            assert(common@[a] == before_c[a]);
                            let j = choose|j: int| 0 <= j < i && fams[j].0@ == (#[trigger] before_c[a])@;
                            assert(fams[j].0@ != fams[i as int].0@);
                        } else {
                            assert(texts(common@)[a] == texts(before_c)[a]);
                            assert(texts(common@)[b] == texts(before_c)[b]);
                        }
                    }
                    assert forall|k: int| 0 <= k < common@.len() implies exists|j: int|
                        0 <= j < i + 1 && fams[j].0@ == (#[trigger] common@[k])@ by {
                        if k < before_c.len() {
                            assert(common@[k] == before_c[k]);
                            let j = choose|j: int| 0 <= j < i && fams[j].0@ == (#[trigger] before_c[k])@;
                            assert(fams[j].0@ == common@[k]@);
                        } else {
                            assert(fams[i as int].0@ == common@[k]@);
                        }
                    }
                }
            } else {
                rest.push(name);
                proof {
                    assert(texts(rest@) =~= texts(before_r).push(fams[i as int].0@));
                    assert forall|a: int, b: int|
                        0 <= a < b < texts(rest@).len() implies texts(rest@)[a] != texts(rest@)[b] by {
                        if b == before_r.len() {
                            assert(rest@[a] == before_r[a]);
                            let j = choose|j: int| 0 <= j < i && fams[j].0@ == (#[trigger] before_r[a])@;
                            assert(fams[j].0@ != fams[i as int].0@);
                        } else {
                            assert(texts(rest@)[a] == texts(before_r)[a]);
                            assert(texts(rest@)[b] == texts(before_r)[b]);
                        }
                    }
                    assert forall|k: int| 0 <= k < rest@.len() implies exists|j: int|
                        0 <= j < i + 1 && fams[j].0@ == (#[trigger] rest@[k])@ by {
                        if k < before_r.len() {
                            assert(rest@[k] == before_r[k]);
                            let j = choose|j: int| 0 <= j < i && fams[j].0@ == (#[trigger] before_r[k])@;
                            assert(fams[j].0@ == rest@[k]@);
                        } else {
                            assert(fams[i as int].0@ == rest@[k]@);
                        }
                    }
                }
            }
        }
        i = i + 1;
    }
    let mut out = sort_stably(&common);
    let sorted_rest = sort_stably(&rest);
    let ghost head = out@;
    let mut k: usize = 0;
    while k < sorted_rest.len()
        invariant
            0 <= k <= sorted_rest@.len(),
            out@ == head + sorted_rest@.take(k as int),
        decreases sorted_rest@.len() - k,
    {
        out.push(sorted_rest[k].clone());
        proof {
            assert(sorted_rest@.take(k + 1) =~= sorted_rest@.take(k as int).push(sorted_rest@[k as int]));
        }
        k = k + 1;
    }
    proof {
        assert(sorted_rest@.take(sorted_rest@.len() as int) =~= sorted_rest@);
        assert(texts(out@).take(head.len() as int) =~= texts(head));
        assert(texts(out@).skip(head.len() as int) =~= texts(sorted_rest@));
    }
    out
}

} // verus!
