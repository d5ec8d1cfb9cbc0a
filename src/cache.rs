use vstd::prelude::*;
use vstd::string::StringExecFns;
use vstd::utf8::{encode_utf8, encode_utf8_decode_utf8};
use crate::render::{ChafaFormat, ChafaColors, format_arg, colors_arg, lemma_format_arg_injective, lemma_colors_arg_injective};

verus! {

/// Lowercase hexadecimal BLAKE3 digest of `data`.
pub uninterp spec fn blake3_hex_of(data: Seq<u8>) -> Seq<char>;

/// Sixty-four lowercase hexadecimal digits: the shape of a BLAKE3 digest
/// written out, and of a cache key.
pub open spec fn is_lower_hex_digest(s: Seq<char>) -> bool {
    &&& s.len() == 64
    &&& forall|i: int| 0 <= i < s.len() ==> ('0' <= #[trigger] s[i] <= '9' || 'a' <= s[i] <= 'f')
}

/// Relies on `blake3::hash` and `Hash::to_hex`: the lowercase hexadecimal
/// digest of `data`, two digits for each of the digest's 32 bytes.
#[verifier::external_body]
fn blake3_hex(data: &Vec<u8>) -> (r: String)
    ensures
        r@ == blake3_hex_of(data@),
        is_lower_hex_digest(r@),
{
    blake3::hash(data.as_slice()).to_hex().to_string()
}

/// 256 to the power `n`.
pub open spec fn pow256(n: nat) -> nat
    decreases n,
{
    if n == 0 { 1 } else { 256 * pow256((n - 1) as nat) }
}

/// The `n` low bytes of `x`, least significant first.
pub open spec fn le_bytes(x: nat, n: nat) -> Seq<u8>
    decreases n,
{
    if n == 0 {
        seq![]
    } else {
        seq![(x % 256) as u8] + le_bytes(x / 256, (n - 1) as nat)
    }
}

/// The bytes a render request is hashed from: the image path, its
/// modification time, the size, the format and palette words and the
/// animation flag.
pub open spec fn key_material(
    image: Seq<char>,
    mtime: u64,
    cols: usize,
    rows: usize,
    format: ChafaFormat,
    colors: ChafaColors,
    animate: bool,
) -> Seq<u8> {
    encode_utf8(image) + le_bytes(mtime as nat, 8) + le_bytes(cols as nat, 8) + le_bytes(
        rows as nat,
        8,
    ) + encode_utf8(format_arg(format)) + encode_utf8(colors_arg(colors)) + seq![
        if animate { 1u8 } else { 0u8 },
    ]
}

/// The cache key of a render request.
pub open spec fn cache_key_spec(
    image: Seq<char>,
    mtime: u64,
    cols: usize,
    rows: usize,
    format: ChafaFormat,
    colors: ChafaColors,
    animate: bool,
) -> Seq<char> {
    blake3_hex_of(key_material(image, mtime, cols, rows, format, colors, animate))
}

/// Appends the eight bytes of `x`, least significant first.
fn push_le_u64(out: &mut Vec<u8>, x: u64)
    ensures
        final(out)@ == old(out)@ + le_bytes(x as nat, 8),
{
    let mut v: u64 = x;
    let mut i: usize = 0;
    while i < 8
        invariant
            i <= 8,
            out@ + le_bytes(v as nat, (8 - i) as nat) == old(out)@ + le_bytes(x as nat, 8),
        decreases 8 - i,
    {
        let ghost before = out@;
        out.push((v % 256) as u8);
        assert(le_bytes(v as nat, (8 - i) as nat) == seq![(v % 256) as u8] + le_bytes(
            (v / 256) as nat,
            (8 - i - 1) as nat,
        ));
        assert(out@ + le_bytes((v / 256) as nat, (8 - i - 1) as nat) =~= before + le_bytes(
            v as nat,
            (8 - i) as nat,
        ));
        v = v / 256;
        i = i + 1;
    }
    assert(le_bytes(v as nat, 0) =~= seq![]);
    assert(out@ =~= out@ + le_bytes(v as nat, 0));
}

/// Appends the UTF-8 bytes of `s`.
fn push_str_bytes(out: &mut Vec<u8>, s: &str)
    ensures
        final(out)@ == old(out)@ + encode_utf8(s@),
{
    let bytes = s.as_bytes();
    let mut i: usize = 0;
    while i < bytes.len()
        invariant
            i <= bytes@.len(),
            bytes@ == encode_utf8(s@),
            out@ == old(out)@ + bytes@.take(i as int),
        decreases bytes@.len() - i,
    {
        out.push(bytes[i]);
        i = i + 1;
        assert(out@ =~= old(out)@ + bytes@.take(i as int));
    }
    assert(bytes@.take(i as int) =~= bytes@);
}

/// The cache key of rendering `image`, last modified at `mtime`, at
/// `cols` by `rows` with the given format, palette and animation flag.
pub fn cache_key(
    image: &str,
    mtime: u64,
    cols: usize,
    rows: usize,
    format: ChafaFormat,
    colors: ChafaColors,
    animate: bool,
) -> (r: String)
    ensures
        r@ == cache_key_spec(image@, mtime, cols, rows, format, colors, animate),
        is_lower_hex_digest(r@),
{
    let mut data: Vec<u8> = Vec::new();
    push_str_bytes(&mut data, image);
    push_le_u64(&mut data, mtime);
    push_le_u64(&mut data, cols as u64);
    push_le_u64(&mut data, rows as u64);
    push_str_bytes(&mut data, format.as_arg());
    push_str_bytes(&mut data, colors.as_arg());
    data.push(if animate { 1u8 } else { 0u8 });
    assert(data@ =~= key_material(image@, mtime, cols, rows, format, colors, animate));
    blake3_hex(&data)
}

/// Name of the cache file that holds the payload of `key`.
pub fn cache_file_name(key: &str) -> (r: String)
    ensures
        r@ == key@ + seq!['.', 't', 'x', 't'],
{
    proof {
        reveal_strlit(".txt");
    }
    let mut s = String::from_str(key);
    s.append(".txt");
    s
}

/// The same request and modification time always give the same key.
pub proof fn lemma_cache_key_deterministic(
    image: Seq<char>,
    mtime: u64,
    cols: usize,
    rows: usize,
    format: ChafaFormat,
    colors: ChafaColors,
    animate: bool,
    image2: Seq<char>,
    mtime2: u64,
    cols2: usize,
    rows2: usize,
    format2: ChafaFormat,
    colors2: ChafaColors,
    animate2: bool,
)
    requires
        image == image2,
        mtime == mtime2,
        cols == cols2,
        rows == rows2,
        format == format2,
        colors == colors2,
        animate == animate2,
    ensures
        cache_key_spec(image, mtime, cols, rows, format, colors, animate) == cache_key_spec(
            image2,
            mtime2,
            cols2,
            rows2,
            format2,
            colors2,
            animate2,
        ),
{
}

proof fn lemma_le_bytes_len(x: nat, n: nat)
    ensures
        le_bytes(x, n).len() == n,
    decreases n,
{
    if n > 0 {
        lemma_le_bytes_len(x / 256, (n - 1) as nat);
    }
}

proof fn lemma_le_bytes_injective(a: nat, b: nat, n: nat)
    requires
        le_bytes(a, n) == le_bytes(b, n),
        a < pow256(n),
        b < pow256(n),
    ensures
        a == b,
    decreases n,
{
    if n > 0 {
        let p = pow256((n - 1) as nat);
        lemma_le_bytes_len(a, n);
        lemma_le_bytes_len(b, n);
        lemma_le_bytes_len(a / 256, (n - 1) as nat);
        lemma_le_bytes_len(b / 256, (n - 1) as nat);
        assert(le_bytes(a, n)[0] == le_bytes(b, n)[0]);
        assert(le_bytes(a, n)[0] == (a % 256) as u8);
        assert(le_bytes(b, n)[0] == (b % 256) as u8);
        assert(a % 256 < 256 && b % 256 < 256);
        assert(a % 256 == b % 256);
        assert(le_bytes(a / 256, (n - 1) as nat) =~= le_bytes(a, n).subrange(1, n as int));
        assert(le_bytes(b / 256, (n - 1) as nat) =~= le_bytes(b, n).subrange(1, n as int));
        assert(a / 256 < p) by (nonlinear_arith)
            requires
                a < 256 * p,
        ;
        assert(b / 256 < p) by (nonlinear_arith)
            requires
                b < 256 * p,
        ;
        lemma_le_bytes_injective(a / 256, b / 256, (n - 1) as nat);
        assert(a == 256 * (a / 256) + a % 256) by (nonlinear_arith);
        assert(b == 256 * (b / 256) + b % 256) by (nonlinear_arith);
    }
}

proof fn lemma_pow256_8()
    ensures
        pow256(8) == 0x1_0000_0000_0000_0000,
{
    reveal_with_fuel(pow256, 9);
}

proof fn lemma_middle_cancel(x: Seq<u8>, a: Seq<u8>, b: Seq<u8>, y: Seq<u8>)
    requires
        x + a + y == x + b + y,
    ensures
        a == b,
{
    let s = x + a + y;
    assert((x + a + y).len() == (x + b + y).len());
    assert((x + a + y).len() == x.len() + a.len() + y.len());
    assert((x + b + y).len() == x.len() + b.len() + y.len());
    assert(a.len() == b.len());
    assert(a =~= s.subrange(x.len() as int, (x.len() + a.len()) as int));
    assert(b =~= (x + b + y).subrange(x.len() as int, (x.len() + b.len()) as int));
}

/// Requests that differ in exactly one of size, format, palette or animation
/// flag are hashed from different bytes.
pub proof fn lemma_key_material_sensitive(
    image: Seq<char>,
    mtime: u64,
    cols: usize,
    rows: usize,
    format: ChafaFormat,
    colors: ChafaColors,
    animate: bool,
    cols2: usize,
    rows2: usize,
    format2: ChafaFormat,
    colors2: ChafaColors,
    animate2: bool,
)
    requires
        (cols != cols2 && rows == rows2 && format == format2 && colors == colors2 && animate
            == animate2) || (cols == cols2 && rows != rows2 && format == format2 && colors
            == colors2 && animate == animate2) || (cols == cols2 && rows == rows2 && format
            != format2 && colors == colors2 && animate == animate2) || (cols == cols2 && rows
            == rows2 && format == format2 && colors != colors2 && animate == animate2) || (cols
            == cols2 && rows == rows2 && format == format2 && colors == colors2 && animate
            != animate2),
    ensures
        key_material(image, mtime, cols, rows, format, colors, animate) != key_material(
            image,
            mtime,
            cols2,
            rows2,
            format2,
            colors2,
            animate2,
        ),
{
    let m1 = key_material(image, mtime, cols, rows, format, colors, animate);
    let m2 = key_material(image, mtime, cols2, rows2, format2, colors2, animate2);
    let p = encode_utf8(image);
    let t = le_bytes(mtime as nat, 8);
    let c1 = le_bytes(cols as nat, 8);
    let c2 = le_bytes(cols2 as nat, 8);
    let r1 = le_bytes(rows as nat, 8);
    let r2 = le_bytes(rows2 as nat, 8);
    let f1 = encode_utf8(format_arg(format));
    let f2 = encode_utf8(format_arg(format2));
    let k1 = encode_utf8(colors_arg(colors));
    let k2 = encode_utf8(colors_arg(colors2));
    let a1: Seq<u8> = seq![if animate { 1u8 } else { 0u8 }];
    let a2: Seq<u8> = seq![if animate2 { 1u8 } else { 0u8 }];
    lemma_pow256_8();
    if m1 == m2 {
        if cols != cols2 {
            assert(m1 =~= (p + t) + c1 + (r1 + f1 + k1 + a1));
            assert(m2 =~= (p + t) + c2 + (r1 + f1 + k1 + a1));
            lemma_middle_cancel(p + t, c1, c2, r1 + f1 + k1 + a1);
            lemma_le_bytes_injective(cols as nat, cols2 as nat, 8);
        } else if rows != rows2 {
            assert(m1 =~= (p + t + c1) + r1 + (f1 + k1 + a1));
            assert(m2 =~= (p + t + c1) + r2 + (f1 + k1 + a1));
            lemma_middle_cancel(p + t + c1, r1, r2, f1 + k1 + a1);
            lemma_le_bytes_injective(rows as nat, rows2 as nat, 8);
        } else if format != format2 {
            assert(m1 =~= (p + t + c1 + r1) + f1 + (k1 + a1));
            assert(m2 =~= (p + t + c1 + r1) + f2 + (k1 + a1));
            lemma_middle_cancel(p + t + c1 + r1, f1, f2, k1 + a1);
            encode_utf8_decode_utf8(format_arg(format));
            encode_utf8_decode_utf8(format_arg(format2));
            lemma_format_arg_injective(format, format2);
        } else if colors != colors2 {
            assert(m1 =~= (p + t + c1 + r1 + f1) + k1 + a1);
            assert(m2 =~= (p + t + c1 + r1 + f1) + k2 + a1);
            lemma_middle_cancel(p + t + c1 + r1 + f1, k1, k2, a1);
            encode_utf8_decode_utf8(colors_arg(colors));
            encode_utf8_decode_utf8(colors_arg(colors2));
            lemma_colors_arg_injective(colors, colors2);
        } else {
            assert(m1[m1.len() - 1] == m2[m2.len() - 1]);
        }
    }
}

} // verus!
