//! Foreground-window naming: decoding an executable's `FileDescription` and a
//! bounded LRU cache of friendly names per executable path.
use vstd::prelude::*;

use crate::text::{chars_eq, chars_of, eq_ignore_ascii_case, str_eq_ignore_ascii_case, string_of, trim_chars, trim_seq};

verus! {

/// What `String::from_utf16_lossy` gives for `units` (invalid sequences
/// become U+FFFD).
pub uninterp spec fn utf16_lossy(units: Seq<u16>) -> Seq<char>;

/// `String::from_utf16_lossy`; the contract names the decoded text.
#[verifier::external_body]
fn decode_utf16_lossy(units: &[u16]) -> (r: String)
    ensures
        r@ == utf16_lossy(units@),
{
    String::from_utf16_lossy(units)
}

/// `s` without leading and trailing NUL characters.
pub open spec fn trim_nuls(s: Seq<char>) -> Seq<char> {
    crate::text::trim_end_char(strip_leading_nuls(s), '\0')
}

pub open spec fn strip_leading_nuls(s: Seq<char>) -> Seq<char>
    decreases s.len(),
{
    if s.len() > 0 && s[0] == '\0' {
        strip_leading_nuls(s.drop_first())
    } else {
        s
    }
}

fn strip_leading_nuls_exec(v: &Vec<char>) -> (r: Vec<char>)
    ensures
        r@ == strip_leading_nuls(v@),
{
    let mut k: usize = 0;
    assert(v@.skip(0) =~= v@);
    while k < v.len() && v[k] == '\0'
        invariant
            k <= v.len(),
            strip_leading_nuls(v@) == strip_leading_nuls(v@.skip(k as int)),
        decreases v.len() - k,
    {
        assert(v@.skip(k as int).drop_first() =~= v@.skip(k + 1));
        k = k + 1;
    }
    let mut r: Vec<char> = Vec::new();
    let mut i: usize = k;
    while i < v.len()
        invariant
            k <= i <= v.len(),
            r@ == v@.subrange(k as int, i as int),
        decreases v.len() - i,
    {
        r.push(v[i]);
        i = i + 1;
        assert(r@ =~= v@.subrange(k as int, i as int));
    }
    assert(r@ =~= v@.skip(k as int));
    r
}

/// A version-resource `FileDescription` (UTF-16, possibly NUL padded) as
/// display text: NULs and surrounding whitespace removed; empty is none.
pub open spec fn file_description_spec(units: Seq<u16>) -> Option<Seq<char>> {
    let s = trim_seq(trim_nuls(utf16_lossy(units)));
    if s.len() == 0 {
        None
    } else {
        Some(s)
    }
}

pub fn decode_file_description(wide_desc: &[u16]) -> (r: Option<String>)
    ensures
        match r {
            Some(s) => file_description_spec(wide_desc@) == Some(s@),
            None => file_description_spec(wide_desc@) is None,
        },
{
    let decoded = decode_utf16_lossy(wide_desc);
    let v = chars_of(decoded.as_str());
    let a = strip_leading_nuls_exec(&v);
    let b = crate::text::trim_end_char_exec(&a, '\0');
    let c = trim_chars(&b);
    if c.len() == 0 {
        None
    } else {
        Some(string_of(&c))
    }
}

/// The friendly name shown for an application: empty when it only repeats
/// the module name (ASCII case-insensitively).
pub fn friendly_display_name(friendly: String, module: &str) -> (r: String)
    ensures
        eq_ignore_ascii_case(friendly@, module@) ==> r@.len() == 0,
        !eq_ignore_ascii_case(friendly@, module@) ==> r@ == friendly@,
{
    if str_eq_ignore_ascii_case(friendly.as_str(), module) {
        String::new()
    } else {
        friendly
    }
}

/// Friendly-name cache capacity.
pub const MAX_ENTRIES: usize = 64;

/// Bounded LRU cache of friendly names keyed by full executable path.
/// Entries are kept oldest first, most recently used last.
pub struct FriendlyCache {
    paths: Vec<String>,
    names: Vec<String>,
}

impl View for FriendlyCache {
    type V = Seq<(Seq<char>, Seq<char>)>;

    closed spec fn view(&self) -> Seq<(Seq<char>, Seq<char>)> {
        Seq::new(self.paths@.len(), |i: int| (self.paths@[i]@, self.names@[i]@))
    }
}

/// Index of `path` among the cached entries.
pub open spec fn entry_index(entries: Seq<(Seq<char>, Seq<char>)>, path: Seq<char>) -> Option<int> {
    if exists|i: int| 0 <= i < entries.len() && (#[trigger] entries[i]).0 == path {
        Some(choose|i: int| 0 <= i < entries.len() && (#[trigger] entries[i]).0 == path)
    } else {
        None
    }
}

impl FriendlyCache {
    /// At most `MAX_ENTRIES` entries, each path at most once.
    pub closed spec fn wf(&self) -> bool {
        &&& self.paths@.len() == self.names@.len()
        &&& self.paths@.len() <= MAX_ENTRIES
        &&& forall|i: int, j: int|
            0 <= i < j < self.paths@.len() ==> self.paths@[i]@ != self.paths@[j]@
    }

    pub proof fn lemma_wf_view(&self)
        requires
            self.wf(),
        ensures
            self@.len() <= MAX_ENTRIES,
            forall|i: int, j: int| 0 <= i < j < self@.len() ==> self@[i].0 != self@[j].0,
    {
    }

    pub fn new() -> (r: Self)
        ensures
            r.wf(),
            r@.len() == 0,
    {
        let r = FriendlyCache { paths: Vec::new(), names: Vec::new() };
        assert(r@ =~= Seq::<(Seq<char>, Seq<char>)>::empty());
        r
    }

    pub fn len(&self) -> (n: usize)
        ensures
            n == self@.len(),
    {
        self.paths.len()
    }

    fn position(&self, path: &str) -> (r: Option<usize>)
        requires
            self.wf(),
        ensures
            match r {
                Some(i) => i < self@.len() && self@[i as int].0 == path@,
                None => forall|i: int| 0 <= i < self@.len() ==> self@[i].0 != path@,
            },
    {
        let key = chars_of(path);
        let mut i: usize = 0;
        while i < self.paths.len()
            invariant
                self.wf(),
                key@ == path@,
                i <= self.paths@.len(),
                forall|j: int| 0 <= j < i ==> self@[j].0 != path@,
            decreases self.paths@.len() - i,
        {
            let pk = chars_of(self.paths[i].as_str());
            if chars_eq(&pk, &key) {
                return Some(i);
            }
            i = i + 1;
        }
        None
    }

    /// Whether `path` is cached.
    pub fn contains(&self, path: &str) -> (r: bool)
        requires
            self.wf(),
        ensures
            r == (entry_index(self@, path@) is Some),
    {
        match self.position(path) {
            Some(i) => {
                assert(self@[i as int].0 == path@);
                true
            },
            None => false,
        }
    }

    /// Cached name for `path`; a hit becomes the most recently used entry.
    pub fn get(&mut self, path: &str) -> (r: Option<String>)
        requires
            old(self).wf(),
        ensures
            final(self).wf(),
            match r {
                Some(name) => exists|i: int|
                    0 <= i < old(self)@.len() && old(self)@[i].0 == path@ && old(self)@[i].1
                        == name@ && final(self)@ == old(self)@.remove(i).push(old(self)@[i]),
                None => (forall|i: int| 0 <= i < old(self)@.len() ==> old(self)@[i].0 != path@)
                    && final(self)@ == old(self)@,
            },
    {
        match self.position(path) {
            None => None,
            Some(i) => {
                let ghost before = self@;
                let ghost pv = self.paths@;
                let p = self.paths.remove(i);
                let n = self.names.remove(i);
                let result = n.clone();
                self.paths.push(p);
                self.names.push(n);
                assert(self@ =~= before.remove(i as int).push(before[i as int]));
                assert forall|a: int, b: int|
                    0 <= a < b < self.paths@.len() implies self.paths@[a]@ != self.paths@[b]@ by {
                    let oa = if a < i { a } else if a < pv.len() - 1 { a + 1 } else { i as int };
                    let ob = if b < i { b } else if b < pv.len() - 1 { b + 1 } else { i as int };
                    assert(self.paths@[a] == pv[oa]);
                    assert(self.paths@[b] == pv[ob]);
                    assert(oa != ob);
                }
                Some(result)
            },
        }
    }

    /// Cache `name` for `path` when absent, evicting the least recently used
    /// entry when full. A present path is left as it is.
    pub fn insert(&mut self, path: &str, name: &str)
        requires
            old(self).wf(),
        ensures
            final(self).wf(),
            final(self)@ == cache_inserted(old(self)@, path@, name@),
            final(self)@.len() <= MAX_ENTRIES,
    {
        match self.position(path) {
            Some(i) => {
                assert(self@[i as int].0 == path@);
            },
            None => {
                let ghost before = self@;
                let ghost pv0 = self.paths@;
                if self.paths.len() >= MAX_ENTRIES {
                    self.paths.remove(0);
                    self.names.remove(0);
                    assert(self@ =~= before.drop_first());
                    assert forall|a: int, b: int|
                        0 <= a < b < self.paths@.len() implies self.paths@[a]@ != self.paths@[b]@ by {
                        assert(self.paths@[a] == pv0[a + 1]);
                        assert(self.paths@[b] == pv0[b + 1]);
                    }
                }
                let ghost mid = self@;
                let ghost pv = self.paths@;
                assert(forall|j: int| 0 <= j < pv.len() ==> pv[j]@ != path@) by {
                    assert forall|j: int| 0 <= j < pv.len() implies pv[j]@ != path@ by {
                        if before.len() >= MAX_ENTRIES {
                            assert(pv[j] == pv0[j + 1]);
                            assert(before[j + 1].0 == pv0[j + 1]@);
                        } else {
                            assert(before[j].0 == pv0[j]@);
                        }
                    }
                }
                self.paths.push(path.to_owned());
                self.names.push(name.to_owned());
                assert(self@ =~= mid.push((path@, name@)));
            },
        }
    }
}

/// The entries after caching `name` for `path`: unchanged when the path
/// is cached; otherwise the pair is appended as most recently used, after
/// the least recently used entry was dropped from a full cache.
pub open spec fn cache_inserted(v: Seq<(Seq<char>, Seq<char>)>, path: Seq<char>, name: Seq<char>) -> Seq<
    (Seq<char>, Seq<char>),
> {
    if exists|i: int| 0 <= i < v.len() && v[i].0 == path {
        v
    } else {
        (if v.len() >= MAX_ENTRIES {
            v.drop_first()
        } else {
            v
        }).push((path, name))
    }
}

/// The cache never holds more than `MAX_ENTRIES` (64) names: caching into
/// a cache within capacity leaves it within capacity, whether or not the
/// path was already cached.
pub proof fn lemma_cache_capacity(v: Seq<(Seq<char>, Seq<char>)>, path: Seq<char>, name: Seq<char>)
    requires
        v.len() <= MAX_ENTRIES,
    ensures
        cache_inserted(v, path, name).len() <= MAX_ENTRIES,
{
}

/// Each path at most once.
pub open spec fn distinct_paths(v: Seq<(Seq<char>, Seq<char>)>) -> bool {
    forall|i: int, j: int| 0 <= i < j < v.len() ==> v[i].0 != v[j].0
}

/// A name cached for a path that was not cached is what the next lookup of
/// that path finds: the pair is the only entry for the path, and the cache
/// stays within its capacity with each path at most once.
pub proof fn lemma_lookup_after_insert(v: Seq<(Seq<char>, Seq<char>)>, path: Seq<char>, name: Seq<char>)
    requires
        distinct_paths(v),
        v.len() <= MAX_ENTRIES,
        forall|i: int| 0 <= i < v.len() ==> v[i].0 != path,
    ensures
        ({
            let w = cache_inserted(v, path, name);
            &&& w.len() <= MAX_ENTRIES
            &&& distinct_paths(w)
            &&& entry_index(w, path) == Some(w.len() - 1)
            &&& w[w.len() - 1] == (path, name)
        }),
{
    let w = cache_inserted(v, path, name);
    let base = if v.len() >= MAX_ENTRIES {
        v.drop_first()
    } else {
        v
    };
    assert(w == base.push((path, name)));
    assert(forall|i: int| 0 <= i < base.len() ==> base[i].0 != path) by {
        assert forall|i: int| 0 <= i < base.len() implies base[i].0 != path by {
            if v.len() >= MAX_ENTRIES {
                assert(base[i] == v[i + 1]);
            }
        }
    }
    assert(distinct_paths(w)) by {
        assert forall|i: int, j: int| 0 <= i < j < w.len() implies w[i].0 != w[j].0 by {
            if j < base.len() {
                if v.len() >= MAX_ENTRIES {
                    assert(base[i] == v[i + 1] && base[j] == v[j + 1]);
                }
            }
        }
    }
    let k = w.len() - 1;
    assert(w[k].0 == path);
    let c = choose|i: int| 0 <= i < w.len() && (#[trigger] w[i]).0 == path;
    assert(c == k);
}

} // verus!
