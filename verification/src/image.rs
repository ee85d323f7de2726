//! Cheap image fingerprints and pre-channel downscaling for captured bitmaps.
use vstd::prelude::*;

use crate::text::push_char;

verus! {

pub const FNV_OFFSET: u64 = 0xcbf29ce484222325;
pub const FNV_PRIME: u64 = 0x0000_0100_0000_01B3;

/// One FNV-1a step.
pub open spec fn fnv_step(h: u64, b: u8) -> u64 {
    (((h ^ (b as u64)) as nat * FNV_PRIME as nat) % 0x1_0000_0000_0000_0000) as u64
}

/// FNV-1a 64 fold of `data` starting from `h`.
pub open spec fn fnv_fold(h: u64, data: Seq<u8>) -> u64
    decreases data.len(),
{
    if data.len() == 0 {
        h
    } else {
        fnv_step(fnv_fold(h, data.drop_last()), data.last())
    }
}

/// Little-endian bytes of `x`.
pub open spec fn le_bytes(x: u64) -> Seq<u8> {
    Seq::new(8, |k: int| ((x >> (8 * k) as u64) & 0xff) as u8)
}

/// Bytes fed to the quick fingerprint: width, height and buffer length
/// (little-endian `u64`s), the first 2048 bytes, and the last 2048 bytes
/// when the buffer is longer than 4096.
pub open spec fn quick_fp_input(width: u64, height: u64, bytes: Seq<u8>) -> Seq<u8> {
    let n = if bytes.len() < 2048 { bytes.len() as int } else { 2048 };
    le_bytes(width) + le_bytes(height) + le_bytes(bytes.len() as u64) + bytes.take(n) + if bytes.len()
        > 4096 {
        bytes.skip(bytes.len() - 2048)
    } else {
        Seq::empty()
    }
}

/// 16 lowercase hex digits of `h` (`{:016x}`).
pub open spec fn hex16(h: u64) -> Seq<char> {
    Seq::new(16, |k: int| crate::content::hex_digit_char(((h >> (60 - 4 * k) as u64) & 0xf) as int))
}

pub open spec fn quick_fingerprint_spec(width: u64, height: u64, bytes: Seq<u8>) -> Seq<char> {
    hex16(fnv_fold(FNV_OFFSET, quick_fp_input(width, height, bytes)))
}

fn fnv_feed(h: u64, data: &[u8], from: usize, to: usize) -> (r: u64)
    requires
        from <= to <= data@.len(),
    ensures
        r == fnv_fold(h, data@.subrange(from as int, to as int)),
{
    let mut acc = h;
    let mut i = from;
    while i < to
        invariant
            from <= i <= to,
            to <= data@.len(),
            acc == fnv_fold(h, data@.subrange(from as int, i as int)),
        decreases to - i,
    {
        let ghost prev = data@.subrange(from as int, i as int);
        acc = (acc ^ (data[i] as u64)).wrapping_mul(FNV_PRIME);
        i = i + 1;
        assert(data@.subrange(from as int, i as int).drop_last() =~= prev);
    }
    acc
}

proof fn lemma_fnv_concat(h: u64, a: Seq<u8>, b: Seq<u8>)
    ensures
        fnv_fold(h, a + b) == fnv_fold(fnv_fold(h, a), b),
    decreases b.len(),
{
    if b.len() == 0 {
        assert(a + b =~= a);
    } else {
        lemma_fnv_concat(h, a, b.drop_last());
        assert((a + b).drop_last() =~= a + b.drop_last());
    }
}

fn le_bytes_exec(x: u64) -> (v: Vec<u8>)
    ensures
        v@ == le_bytes(x),
{
    let mut v: Vec<u8> = Vec::new();
    let mut k: u64 = 0;
    while k < 8
        invariant
            k <= 8,
            v@.len() == k,
            forall|j: int| 0 <= j < k ==> v@[j] == ((x >> (8 * j) as u64) & 0xff) as u8,
        decreases 8 - k,
    {
        v.push(((x >> (8 * k)) & 0xff) as u8);
        k = k + 1;
    }
    assert(v@ =~= le_bytes(x));
    v
}

/// Quick dedup fingerprint for clipboard images: FNV-1a (non-crypto) over the
/// dimensions plus sampled head/tail bytes, as 16 hex digits. Only guards
/// the poll-loop dedup check; the stored hash is a SHA-256 of all pixels.
pub fn image_quick_fingerprint(width: u64, height: u64, bytes: &[u8]) -> (r: String)
    ensures
        r@ == quick_fingerprint_spec(width, height, bytes@),
{
    let len = bytes.len();
    let wb = le_bytes_exec(width);
    let hb = le_bytes_exec(height);
    let lb = le_bytes_exec(len as u64);
    let mut h = fnv_feed(FNV_OFFSET, wb.as_slice(), 0, 8);
    assert(wb@.subrange(0, 8) =~= wb@);
    let h1 = h;
    h = fnv_feed(h, hb.as_slice(), 0, 8);
    assert(hb@.subrange(0, 8) =~= hb@);
    let h2 = h;
    h = fnv_feed(h, lb.as_slice(), 0, 8);
    assert(lb@.subrange(0, 8) =~= lb@);
    let h3 = h;
    let n = if len < 2048 { len } else { 2048 };
    h = fnv_feed(h, bytes, 0, n);
    let h4 = h;
    if len > 4096 {
        h = fnv_feed(h, bytes, len - 2048, len);
    }
    proof {
        let a = le_bytes(width);
        let b = le_bytes(height);
        let c = le_bytes(len as u64);
        let d = bytes@.take(n as int);
        let e = if len > 4096 { bytes@.skip(len - 2048) } else { Seq::<u8>::empty() };
        assert(bytes@.subrange(0, n as int) =~= d);
        if len > 4096 {
            assert(bytes@.subrange(len - 2048, len as int) =~= e);
        } else {
            assert(fnv_fold(h4, e) == h4);
        }
        lemma_fnv_concat(FNV_OFFSET, a, b);
        lemma_fnv_concat(FNV_OFFSET, a + b, c);
        lemma_fnv_concat(FNV_OFFSET, a + b + c, d);
        lemma_fnv_concat(FNV_OFFSET, a + b + c + d, e);
        assert(quick_fp_input(width, height, bytes@) =~= a + b + c + d + e);
    }
    let mut s = String::new();
    let mut k: u64 = 0;
    while k < 16
        invariant
            k <= 16,
            s@.len() == k,
            forall|j: int|
                0 <= j < k ==> s@[j] == crate::content::hex_digit_char(
                    ((h >> (60 - 4 * j) as u64) & 0xf) as int,
                ),
        decreases 16 - k,
    {
        let sh: u64 = h >> (60 - 4 * k);
        let nib: u64 = sh & 0xf;
        assert(nib < 16) by (bit_vector)
            requires
                nib == sh & 0xf,
        ;
        let d = nib as u8;
        let c = if d < 10 { (48u8 + d) as char } else { (87u8 + d) as char };
        push_char(&mut s, c);
        k = k + 1;
    }
    assert(s@ =~= hex16(h));
    s
}


/// Longest edge kept for captured bitmaps.
pub const MAX_EDGE: u32 = 2560;

/// Output size: unchanged when both edges fit or the bitmap is empty (a
/// zero edge), else scaled so the longest edge is `MAX_EDGE`, each edge
/// rounded to the nearest pixel and at least 1.
pub open spec fn scaled_dims(w: u32, h: u32) -> (u32, u32) {
    if w == 0 || h == 0 || (w <= MAX_EDGE && h <= MAX_EDGE) {
        (w, h)
    } else {
        let longest: int = if w >= h { w as int } else { h as int };
        let nw: int = (2 * (w as int) * (MAX_EDGE as int) + longest) / (2 * longest);
        let nh: int = (2 * (h as int) * (MAX_EDGE as int) + longest) / (2 * longest);
        ((if nw < 1 { 1 } else { nw }) as u32, (if nh < 1 { 1 } else { nh }) as u32)
    }
}

proof fn lemma_div_bounds(x: int, d: int)
    requires
        x >= 0,
        d > 0,
    ensures
        d * (x / d) <= x < d * (x / d) + d,
        x / d >= 0,
{
    vstd::arithmetic::div_mod::lemma_fundamental_div_mod(x, d);
    vstd::arithmetic::div_mod::lemma_mod_bound(x, d);
    let q = x / d;
    assert(q >= 0) by (nonlinear_arith)
        requires
            x >= 0,
            d > 0,
            x < d * q + d,
    ;
}

/// Scaling an edge pair whose longest edge `long` exceeds `MAX_EDGE`: the
/// longest edge becomes `MAX_EDGE` exactly, the other edge lands in
/// `1..=MAX_EDGE` and keeps the ratio to within one pixel of `long`.
proof fn lemma_scale_edges(long: int, short: int)
    requires
        long >= short >= 1,
        long > MAX_EDGE,
    ensures
        (2 * long * (MAX_EDGE as int) + long) / (2 * long) == MAX_EDGE as int,
        ({
            let q = (2 * short * (MAX_EDGE as int) + long) / (2 * long);
            let s = if q < 1 { 1 } else { q };
            &&& 1 <= s <= MAX_EDGE as int
            &&& short == long ==> s == MAX_EDGE as int
            &&& -long <= (MAX_EDGE as int) * short - s * long <= long
        }),
{
    let m: int = MAX_EDGE as int;
    assert(2 * long * m + long == m * (2 * long) + long) by (nonlinear_arith);
    vstd::arithmetic::div_mod::lemma_fundamental_div_mod_converse(2 * long * m + long, 2 * long, m, long);
    let x = 2 * short * m + long;
    lemma_div_bounds(x, 2 * long);
    let q = x / (2 * long);
    assert(q <= m) by (nonlinear_arith)
        requires
            long >= short >= 1,
            m == 2560,
            (2 * long) * q <= 2 * short * m + long,
    ;
    assert(-long <= m * short - q * long <= long) by (nonlinear_arith)
        requires
            (2 * long) * q <= 2 * short * m + long,
            2 * short * m + long < (2 * long) * q + 2 * long,
            long >= 1,
    ;
    if q < 1 {
        assert(m * short - 1 * long <= long && -long <= m * short - 1 * long) by (nonlinear_arith)
            requires
                q == 0,
                2 * short * m + long < (2 * long) * q + 2 * long,
                short >= 1,
                m == 2560,
                long >= 1,
        ;
    }
}

/// Downscaling keeps a bitmap's shape: the longer input edge stays the
/// longer (or equal) output edge, the aspect ratio is kept to within
/// rounding (`|out_w * h - out_h * w|` is at most the longest input edge),
/// and a bitmap larger than `MAX_EDGE` comes out with its longest edge at
/// exactly `MAX_EDGE` and both edges in `1..=MAX_EDGE`.
pub proof fn lemma_scaled_dims_keep_shape(w: u32, h: u32)
    ensures
        ({
            let (a, b) = scaled_dims(w, h);
            let longest: int = if w >= h { w as int } else { h as int };
            &&& w <= h ==> a <= b
            &&& h <= w ==> b <= a
            &&& -longest <= (a as int) * (h as int) - (b as int) * (w as int) <= longest
            &&& w > 0 && h > 0 && (w > MAX_EDGE || h > MAX_EDGE) ==> {
                &&& 1 <= a <= MAX_EDGE && 1 <= b <= MAX_EDGE
                &&& w >= h ==> a == MAX_EDGE
                &&& h >= w ==> b == MAX_EDGE
            }
        }),
{
    if w == 0 || h == 0 || (w <= MAX_EDGE && h <= MAX_EDGE) {
        assert((w as int) * (h as int) - (h as int) * (w as int) == 0) by (nonlinear_arith);
    } else if w >= h {
        lemma_scale_edges(w as int, h as int);
        let q = (2 * (h as int) * (MAX_EDGE as int) + (w as int)) / (2 * (w as int));
        let s = if q < 1 { 1 } else { q };
        assert(scaled_dims(w, h) == (MAX_EDGE, s as u32));
        assert((MAX_EDGE as int) * (h as int) - s * (w as int) == (MAX_EDGE as int) * (h as int) - (s as u32 as int) * (w as int));
    } else {
        lemma_scale_edges(h as int, w as int);
        let q = (2 * (w as int) * (MAX_EDGE as int) + (h as int)) / (2 * (h as int));
        let s = if q < 1 { 1 } else { q };
        assert(scaled_dims(w, h) == (s as u32, MAX_EDGE));
    }
}

/// What `image::imageops::resize` with the triangle filter makes of a
/// `w`×`h` RGBA buffer at `nw`×`nh`.
pub uninterp spec fn triangle_resized(rgba: Seq<u8>, w: u32, h: u32, nw: u32, nh: u32) -> Seq<u8>;

/// `image::imageops::resize(.., FilterType::Triangle)` on an RGBA buffer of
/// exactly `w * h * 4` bytes: the resampled `nw`×`nh` buffer.
#[verifier::external_body]
fn resize_rgba_triangle(rgba: Vec<u8>, w: u32, h: u32, nw: u32, nh: u32) -> (r: Vec<u8>)
    requires
        rgba@.len() == (w as int) * (h as int) * 4,
        w >= 1 && h >= 1 && nw >= 1 && nh >= 1,
    ensures
        r@.len() == (nw as int) * (nh as int) * 4,
        r@ == triangle_resized(rgba@, w, h, nw, nh),
{
    let img = image::RgbaImage::from_raw(w, h, rgba).unwrap();
    image::imageops::resize(&img, nw, nh, image::imageops::FilterType::Triangle).into_raw()
}

/// Byte `j` of the buffer normalized to exactly `expected` bytes (extra
/// stride padding dropped, a short buffer zero-padded).
pub open spec fn normalized_byte(rgba: Seq<u8>, expected: int, j: int) -> u8 {
    if 0 <= j < expected && j < rgba.len() {
        rgba[j]
    } else {
        0
    }
}

/// The buffer normalized to exactly `expected` bytes.
pub open spec fn normalized(rgba: Seq<u8>, expected: int) -> Seq<u8> {
    Seq::new(expected as nat, |j: int| normalized_byte(rgba, expected, j))
}

/// Downscale an RGBA clipboard bitmap to at most `MAX_EDGE` on its longest
/// side before it is moved into the bounded capture channel. Bitmaps that
/// already fit, and empty ones, are returned untouched; larger ones are
/// resampled with the triangle filter from the buffer normalized to
/// `width * height * 4` bytes (stride padding dropped, a short buffer
/// zero-padded).
pub fn downscale_captured_rgba_if_large(rgba: Vec<u8>, width: u32, height: u32) -> (r: (
    Vec<u8>,
    u32,
    u32,
))
    requires
        (width as int) * (height as int) * 4 <= usize::MAX,
    ensures
        (r.1, r.2) == scaled_dims(width, height),
        r.1 <= MAX_EDGE || width == 0 || height == 0,
        r.2 <= MAX_EDGE || width == 0 || height == 0,
        width <= height ==> r.1 <= r.2,
        height <= width ==> r.2 <= r.1,
        -(if width >= height { width as int } else { height as int }) <= (r.1 as int) * (height as int)
            - (r.2 as int) * (width as int) <= (if width >= height { width as int } else { height as int }),
        (r.1, r.2) == (width, height) ==> r.0@ == rgba@,
        (r.1, r.2) != (width, height) ==> {
            &&& r.0@.len() == (r.1 as int) * (r.2 as int) * 4
            &&& r.0@ == triangle_resized(
                normalized(rgba@, (width as int) * (height as int) * 4),
                width,
                height,
                r.1,
                r.2,
            )
        },
{
    proof {
        lemma_scaled_dims_keep_shape(width, height);
    }
    if width == 0 || height == 0 || (width <= MAX_EDGE && height <= MAX_EDGE) {
        return (rgba, width, height);
    }
    let w = width as u64;
    let h = height as u64;
    let longest: u64 = if w >= h { w } else { h };
    let mut nw: u64 = (2 * w * (MAX_EDGE as u64) + longest) / (2 * longest);
    let mut nh: u64 = (2 * h * (MAX_EDGE as u64) + longest) / (2 * longest);
    assert(nw <= 2560 && nh <= 2560) by (nonlinear_arith)
        requires
            w <= longest,
            h <= longest,
            longest >= 1,
            nw as int == (2 * (w as int) * 2560 + longest) / (2 * (longest as int)),
            nh as int == (2 * (h as int) * 2560 + longest) / (2 * (longest as int)),
    ;
    if nw < 1 {
        nw = 1;
    }
    if nh < 1 {
        nh = 1;
    }
    assert((w as int) * (h as int) * 4 <= usize::MAX);
    let expected: usize = (w * h * 4) as usize;
    let mut buf: Vec<u8> = Vec::new();
    let mut i: usize = 0;
    while i < expected
        invariant
            i <= expected,
            expected as int == (w as int) * (h as int) * 4,
            buf@.len() == i,
            forall|j: int|
                0 <= j < i ==> #[trigger] buf@[j] == normalized_byte(rgba@, expected as int, j),
        decreases expected - i,
    {
        let b = if i < rgba.len() {
            rgba[i]
        } else {
            0
        };
        buf.push(b);
        i = i + 1;
    }
    assert(buf@ =~= normalized(rgba@, expected as int));
    let out = resize_rgba_triangle(buf, width, height, nw as u32, nh as u32);
    (out, nw as u32, nh as u32)
}

} // verus!
