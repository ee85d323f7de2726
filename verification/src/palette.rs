//! Tag colors: the fixed 12-swatch hue wheel and snapping of arbitrary hex
//! colors onto it.
use vstd::prelude::*;

use crate::text::{ascii_lower, char_ascii_lower, chars_eq, trim_seq, trim_to_chars, string_of};

verus! {

/// Fixed 12-color hue wheel (~30 degree steps).
pub const TAG_PALETTE: [&'static str; 12] = [
    "#ef4444",
    "#f97316",
    "#eab308",
    "#84cc16",
    "#22c55e",
    "#14b8a6",
    "#06b6d4",
    "#0ea5e9",
    "#3b82f6",
    "#6366f1",
    "#a855f7",
    "#ec4899",
];

pub open spec fn palette_seq() -> Seq<Seq<char>> {
    seq![
        "#ef4444"@,
        "#f97316"@,
        "#eab308"@,
        "#84cc16"@,
        "#22c55e"@,
        "#14b8a6"@,
        "#06b6d4"@,
        "#0ea5e9"@,
        "#3b82f6"@,
        "#6366f1"@,
        "#a855f7"@,
        "#ec4899"@,
    ]
}

/// Swatch `i` of the palette.
pub fn palette_swatch(i: usize) -> (s: &'static str)
    requires
        i < 12,
    ensures
        s@ == palette_seq()[i as int],
{
    match i {
        0 => "#ef4444",
        1 => "#f97316",
        2 => "#eab308",
        3 => "#84cc16",
        4 => "#22c55e",
        5 => "#14b8a6",
        6 => "#06b6d4",
        7 => "#0ea5e9",
        8 => "#3b82f6",
        9 => "#6366f1",
        10 => "#a855f7",
        _ => "#ec4899",
    }
}


/// Lower-cased, trimmed color text used to compare colors.
pub open spec fn color_key(s: Seq<char>) -> Seq<char> {
    trim_seq(s).map_values(|c: char| ascii_lower(c))
}

fn color_key_chars(color: &str) -> (r: Vec<char>)
    ensures
        r@ == color_key(color@),
{
    let t = trim_to_chars(color);
    let mut r: Vec<char> = Vec::new();
    let mut i: usize = 0;
    while i < t.len()
        invariant
            i <= t.len(),
            r@ == t@.take(i as int).map_values(|c: char| ascii_lower(c)),
        decreases t.len() - i,
    {
        r.push(char_ascii_lower(t[i]));
        i = i + 1;
        assert(r@ =~= t@.take(i as int).map_values(|c: char| ascii_lower(c)));
    }
    assert(t@.take(t.len() as int) =~= t@);
    r
}

/// Normalized comparison key: trimmed and ASCII-lowercased.
pub fn normalize_color_key(color: &str) -> (r: String)
    ensures
        r@ == color_key(color@),
{
    let v = color_key_chars(color);
    string_of(&v)
}

pub open spec fn is_hex_digit(c: char) -> bool {
    ('0' <= c && c <= '9') || ('a' <= c && c <= 'f') || ('A' <= c && c <= 'F')
}

pub open spec fn hex_value(c: char) -> int {
    if '0' <= c && c <= '9' {
        (c as int) - ('0' as int)
    } else if 'a' <= c && c <= 'f' {
        (c as int) - ('a' as int) + 10
    } else {
        (c as int) - ('A' as int) + 10
    }
}

/// `s` without its leading `#` characters.
pub open spec fn strip_hashes(s: Seq<char>) -> Seq<char>
    decreases s.len(),
{
    if s.len() > 0 && s[0] == '#' {
        strip_hashes(s.drop_first())
    } else {
        s
    }
}

/// `#rgb` / `#rrggbb` (any number of leading `#`, surrounding whitespace
/// ignored) to its red, green and blue components.
pub open spec fn parse_hex_spec(s: Seq<char>) -> Option<(u8, u8, u8)> {
    let h = strip_hashes(trim_seq(s));
    if !(forall|i: int| 0 <= i < h.len() ==> is_hex_digit(#[trigger] h[i])) {
        None
    } else if h.len() == 3 {
        Some(
            (
                (hex_value(h[0]) * 17) as u8,
                (hex_value(h[1]) * 17) as u8,
                (hex_value(h[2]) * 17) as u8,
            ),
        )
    } else if h.len() == 6 {
        Some(
            (
                (hex_value(h[0]) * 16 + hex_value(h[1])) as u8,
                (hex_value(h[2]) * 16 + hex_value(h[3])) as u8,
                (hex_value(h[4]) * 16 + hex_value(h[5])) as u8,
            ),
        )
    } else {
        None
    }
}

fn hex_digit_value(c: char) -> (r: Option<u8>)
    ensures
        r is Some == is_hex_digit(c),
        r is Some ==> r.unwrap() as int == hex_value(c) && r.unwrap() < 16,
{
    if '0' <= c && c <= '9' {
        Some(((c as u32) - ('0' as u32)) as u8)
    } else if 'a' <= c && c <= 'f' {
        Some(((c as u32) - ('a' as u32) + 10) as u8)
    } else if 'A' <= c && c <= 'F' {
        Some(((c as u32) - ('A' as u32) + 10) as u8)
    } else {
        None
    }
}

proof fn lemma_strip_hashes_skip(s: Seq<char>, k: int)
    requires
        0 <= k <= s.len(),
        forall|j: int| 0 <= j < k ==> s[j] == '#',
        k == s.len() || s[k] != '#',
    ensures
        strip_hashes(s) == s.skip(k),
    decreases k,
{
    if k == 0 {
        assert(s.skip(0) =~= s);
    } else {
        let t = s.drop_first();
        assert forall|j: int| 0 <= j < k - 1 implies t[j] == '#' by {
            assert(t[j] == s[j + 1]);
        }
        if k - 1 < t.len() {
            assert(t[k - 1] == s[k]);
        }
        lemma_strip_hashes_skip(t, k - 1);
        assert(t.skip(k - 1) =~= s.skip(k));
    }
}

/// Parse a hex color; see [`parse_hex_spec`].
pub fn parse_hex_rgb(color: &str) -> (r: Option<(u8, u8, u8)>)
    ensures
        r == parse_hex_spec(color@),
{
    let t = trim_to_chars(color);
    let mut k: usize = 0;
    while k < t.len() && t[k] == '#'
        invariant
            k <= t.len(),
            forall|j: int| 0 <= j < k ==> t@[j] == '#',
        decreases t.len() - k,
    {
        k = k + 1;
    }
    proof {
        lemma_strip_hashes_skip(t@, k as int);
    }
    let ghost h = t@.skip(k as int);
    let n = t.len() - k;
    let mut vals: Vec<u8> = Vec::new();
    let mut i: usize = 0;
    while i < n
        invariant
            i <= n,
            n == h.len(),
            k + n == t.len(),
            h == t@.skip(k as int),
            t@ == trim_seq(color@),
            h == strip_hashes(t@),
            vals.len() == i,
            forall|j: int| 0 <= j < i ==> is_hex_digit(#[trigger] h[j]),
            forall|j: int| 0 <= j < i ==> vals@[j] as int == hex_value(h[j]) && vals@[j] < 16,
        decreases n - i,
    {
        match hex_digit_value(t[k + i]) {
            None => {
                assert(!is_hex_digit(h[i as int]));
                return None;
            },
            Some(v) => {
                vals.push(v);
            },
        }
        i = i + 1;
    }
    if n == 3 {
        Some((vals[0] * 17, vals[1] * 17, vals[2] * 17))
    } else if n == 6 {
        Some((vals[0] * 16 + vals[1], vals[2] * 16 + vals[3], vals[4] * 16 + vals[5]))
    } else {
        None
    }
}

/// Squared RGB distance.
pub open spec fn rgb_dist(a: (u8, u8, u8), b: (u8, u8, u8)) -> int {
    (a.0 - b.0) * (a.0 - b.0) + (a.1 - b.1) * (a.1 - b.1) + (a.2 - b.2) * (a.2 - b.2)
}

/// Best swatch among the first `n` (index, distance), starting from
/// `(0, u32::MAX)` and moving only on a strictly smaller distance.
pub open spec fn best_swatch_upto(rgb: (u8, u8, u8), n: int) -> (int, int)
    decreases n,
{
    if n <= 0 {
        (0, u32::MAX as int)
    } else {
        let prev = best_swatch_upto(rgb, n - 1);
        match parse_hex_spec(palette_seq()[n - 1]) {
            Some(p) => if rgb_dist(rgb, p) < prev.1 {
                (n - 1, rgb_dist(rgb, p))
            } else {
                prev
            },
            None => prev,
        }
    }
}

/// First palette index whose key equals `key`, searching from `i`.
pub open spec fn exact_swatch_from(key: Seq<char>, i: int) -> Option<int>
    decreases 12 - i,
{
    if i >= 12 || i < 0 {
        None
    } else if color_key(palette_seq()[i]) == key {
        Some(i)
    } else {
        exact_swatch_from(key, i + 1)
    }
}

/// Palette index [`nearest_palette_color`] returns for `color`.
pub open spec fn nearest_index(color: Seq<char>) -> int {
    match exact_swatch_from(color_key(color), 0) {
        Some(i) => i,
        None => match parse_hex_spec(color) {
            None => 0,
            Some(rgb) => best_swatch_upto(rgb, 12).0,
        },
    }
}

fn dist_exec(a: (u8, u8, u8), b: (u8, u8, u8)) -> (d: u32)
    ensures
        d as int == rgb_dist(a, b),
        d <= 195075,
{
    let dr: i32 = a.0 as i32 - b.0 as i32;
    let dg: i32 = a.1 as i32 - b.1 as i32;
    let db: i32 = a.2 as i32 - b.2 as i32;
    assert(dr * dr <= 65025) by (nonlinear_arith)
        requires
            -255 <= dr <= 255,
    ;
    assert(dg * dg <= 65025) by (nonlinear_arith)
        requires
            -255 <= dg <= 255,
    ;
    assert(db * db <= 65025) by (nonlinear_arith)
        requires
            -255 <= db <= 255,
    ;
    assert(dr * dr >= 0 && dg * dg >= 0 && db * db >= 0) by (nonlinear_arith);
    (dr * dr + dg * dg + db * db) as u32
}

/// Snap any hex color to a palette swatch: the swatch with the same key when
/// there is one, else the nearest swatch by RGB distance (first on ties);
/// text that is not a hex color yields the first swatch.
pub fn nearest_palette_color(color: &str) -> (r: &'static str)
    ensures
        0 <= nearest_index(color@) < 12,
        r@ == palette_seq()[nearest_index(color@)],
        exact_swatch_from(color_key(color@), 0) is None && parse_hex_spec(color@) is Some ==> forall|i: int|
            0 <= i < 12 && parse_hex_spec(#[trigger] palette_seq()[i]) is Some ==> {
                let (cr, cg, cb) = parse_hex_spec(color@).unwrap();
                let (sr, sg, sb) = parse_hex_spec(r@).unwrap();
                let (pr, pg, pb) = parse_hex_spec(palette_seq()[i]).unwrap();
                (cr - sr) * (cr - sr) + (cg - sg) * (cg - sg) + (cb - sb) * (cb - sb)
                    <= (cr - pr) * (cr - pr) + (cg - pg) * (cg - pg) + (cb - pb) * (cb - pb)
            },
{
    proof {
        assert forall|i: int|
            exact_swatch_from(color_key(color@), 0) is None && parse_hex_spec(color@) is Some && 0 <= i < 12
                && parse_hex_spec(#[trigger] palette_seq()[i]) is Some implies {
                let (cr, cg, cb) = parse_hex_spec(color@).unwrap();
                let (sr, sg, sb) = parse_hex_spec(palette_seq()[nearest_index(color@)]).unwrap();
                let (pr, pg, pb) = parse_hex_spec(palette_seq()[i]).unwrap();
                (cr - sr) * (cr - sr) + (cg - sg) * (cg - sg) + (cb - sb) * (cb - sb)
                    <= (cr - pr) * (cr - pr) + (cg - pg) * (cg - pg) + (cb - pb) * (cb - pb)
            } by {
            lemma_nearest_is_closest(color@, i);
        }
    }
    let key = color_key_chars(color);
    let mut i: usize = 0;
    while i < 12
        invariant
            i <= 12,
            key@ == color_key(color@),
            exact_swatch_from(key@, 0) == exact_swatch_from(key@, i as int),
        decreases 12 - i,
    {
        let sw = palette_swatch(i);
        let sk = color_key_chars(sw);
        if chars_eq(&sk, &key) {
            return sw;
        }
        i = i + 1;
    }
    assert(exact_swatch_from(key@, 0) is None);
    match parse_hex_rgb(color) {
        None => palette_swatch(0),
        Some(rgb) => {
            let mut best: usize = 0;
            let mut best_dist: u32 = u32::MAX;
            let mut j: usize = 0;
            while j < 12
                invariant
                    j <= 12,
                    best_swatch_upto(rgb, j as int) == (best as int, best_dist as int),
                    best < 12,
                decreases 12 - j,
            {
                let sw = palette_swatch(j);
                match parse_hex_rgb(sw) {
                    None => {},
                    Some(p) => {
                        let d = dist_exec(rgb, p);
                        if d < best_dist {
                            best_dist = d;
                            best = j;
                        }
                    },
                }
                j = j + 1;
            }
            palette_swatch(best)
        },
    }
}


proof fn lemma_best_swatch(rgb: (u8, u8, u8), n: int)
    requires
        0 <= n <= 12,
    ensures
        forall|i: int|
            0 <= i < n && parse_hex_spec(#[trigger] palette_seq()[i]) is Some ==> best_swatch_upto(
                rgb,
                n,
            ).1 <= rgb_dist(rgb, parse_hex_spec(palette_seq()[i]).unwrap()),
        best_swatch_upto(rgb, n).1 < u32::MAX ==> {
            let b = best_swatch_upto(rgb, n);
            &&& 0 <= b.0 < n
            &&& parse_hex_spec(palette_seq()[b.0]) is Some
            &&& b.1 == rgb_dist(rgb, parse_hex_spec(palette_seq()[b.0]).unwrap())
        },
        best_swatch_upto(rgb, n).1 <= u32::MAX,
    decreases n,
{
    if n > 0 {
        lemma_best_swatch(rgb, n - 1);
        match parse_hex_spec(palette_seq()[n - 1]) {
            Some(p) => {
                assert(rgb_dist(rgb, p) <= 195075) by (nonlinear_arith)
                    requires
                        0 <= rgb.0 <= 255 && 0 <= rgb.1 <= 255 && 0 <= rgb.2 <= 255,
                        0 <= p.0 <= 255 && 0 <= p.1 <= 255 && 0 <= p.2 <= 255,
                ;
            },
            None => {},
        }
    }
}

/// Snapping picks a closest swatch: when `color` matches no swatch key and
/// parses as a hex color, no parseable swatch is strictly nearer to it than
/// the one returned.
pub proof fn lemma_nearest_is_closest(color: Seq<char>, i: int)
    requires
        exact_swatch_from(color_key(color), 0) is None,
        parse_hex_spec(color) is Some,
        0 <= i < 12,
        parse_hex_spec(palette_seq()[i]) is Some,
    ensures
        parse_hex_spec(palette_seq()[nearest_index(color)]) is Some,
        ({
            let (r, g, b) = parse_hex_spec(color).unwrap();
            let (sr, sg, sb) = parse_hex_spec(palette_seq()[nearest_index(color)]).unwrap();
            let (pr, pg, pb) = parse_hex_spec(palette_seq()[i]).unwrap();
            (r - sr) * (r - sr) + (g - sg) * (g - sg) + (b - sb) * (b - sb)
                <= (r - pr) * (r - pr) + (g - pg) * (g - pg) + (b - pb) * (b - pb)
        }),
{
    let rgb = parse_hex_spec(color).unwrap();
    let p = parse_hex_spec(palette_seq()[i]).unwrap();
    lemma_best_swatch(rgb, 12);
    assert(rgb_dist(rgb, p) <= 195075) by (nonlinear_arith)
        requires
            0 <= rgb.0 <= 255 && 0 <= rgb.1 <= 255 && 0 <= rgb.2 <= 255,
            0 <= p.0 <= 255 && 0 <= p.1 <= 255 && 0 <= p.2 <= 255,
    ;
    let s = parse_hex_spec(palette_seq()[nearest_index(color)]).unwrap();
    assert(rgb_dist(rgb, s) == (rgb.0 - s.0) * (rgb.0 - s.0) + (rgb.1 - s.1) * (rgb.1 - s.1) + (rgb.2 - s.2) * (rgb.2 - s.2));
    assert(rgb_dist(rgb, p) == (rgb.0 - p.0) * (rgb.0 - p.0) + (rgb.1 - p.1) * (rgb.1 - p.1) + (rgb.2 - p.2) * (rgb.2 - p.2));
}

} // verus!
