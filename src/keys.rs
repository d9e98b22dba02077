//! Cache key derivation: a stable 64-bit FNV-1a digest of the path's UTF-8
//! bytes, written in lower-case hexadecimal, followed by the artifact's
//! extension.

use vstd::prelude::*;
use vstd::string::StrSliceExecFns;
use vstd::string::StringExecFns;
use vstd::string::StringSliceAdditionalSpecFns;

verus! {

/// FNV-1a 64-bit offset basis.
pub const FNV_OFFSET: u64 = 0xcbf2_9ce4_8422_2325;

/// FNV-1a 64-bit prime.
pub const FNV_PRIME: u64 = 0x0000_0100_0000_01b3;

/// The FNV-1a digest of a byte sequence.
pub open spec fn fnv1a(bytes: Seq<u8>) -> u64
    decreases bytes.len(),
{
    if bytes.len() == 0 {
        FNV_OFFSET
    } else {
        vstd::wrapping::u64_specs::wrapping_mul(
            fnv1a(bytes.drop_last()) ^ (bytes.last() as u64),
            FNV_PRIME,
        )
    }
}

/// The sixteen lower-case hexadecimal digits, in order.
pub open spec fn hex_chars() -> Seq<char> {
    seq!['0', '1', '2', '3', '4', '5', '6', '7', '8', '9', 'a', 'b', 'c', 'd', 'e', 'f']
}

/// `n` in lower-case hexadecimal, without leading zeros ("0" for zero).
pub open spec fn hex_text(n: nat) -> Seq<char>
    decreases n,
{
    if n < 16 {
        seq![hex_chars()[n as int]]
    } else {
        hex_text(n / 16).push(hex_chars()[(n % 16) as int])
    }
}

/// The extension of every cached artifact.
pub open spec fn artifact_extension() -> Seq<char> {
    seq!['.', 'w', 'e', 'b', 'p']
}

/// The artifact file name for a path: the digest of its UTF-8 encoding.
pub open spec fn thumbnail_filename(path: Seq<char>) -> Seq<char> {
    hex_text(fnv1a(vstd::utf8::encode_utf8(path)) as nat) + artifact_extension()
}

/// A name is filesystem-safe when it is made of hexadecimal digits and the
/// artifact extension only.
pub open spec fn is_safe_name(name: Seq<char>) -> bool {
    &&& name.len() > artifact_extension().len()
    &&& name.subrange(name.len() - artifact_extension().len(), name.len() as int)
        == artifact_extension()
    &&& forall|i: int|
        0 <= i < name.len() - artifact_extension().len() ==> hex_chars().contains(#[trigger] name[i])
}

proof fn lemma_hex_text_digits(n: nat)
    ensures
        hex_text(n).len() >= 1,
        forall|i: int| 0 <= i < hex_text(n).len() ==> hex_chars().contains(#[trigger] hex_text(n)[i]),
    decreases n,
{
    if n < 16 {
        assert(hex_chars().contains(hex_text(n)[0]));
    } else {
        lemma_hex_text_digits(n / 16);
        let d = hex_chars()[(n % 16) as int];
        assert(hex_chars().contains(d));
    }
}

/// Every derived artifact name is filesystem-safe.
pub proof fn lemma_filename_is_safe(path: Seq<char>)
    ensures
        is_safe_name(thumbnail_filename(path)),
{
    let bytes = vstd::utf8::encode_utf8(path);
    let h = hex_text(fnv1a(bytes) as nat);
    lemma_hex_text_digits(fnv1a(bytes) as nat);
    let name = thumbnail_filename(path);
    assert(name.subrange(h.len() as int, name.len() as int) =~= artifact_extension());
    assert forall|i: int| 0 <= i < h.len() implies hex_chars().contains(#[trigger] name[i]) by {
        assert(name[i] == h[i]);
    }
}

/// Key derivation is a function of the path alone: equal paths give equal
/// names, in this process and in any other.
pub proof fn lemma_filename_deterministic(p: &str, q: &str)
    requires
        p@ == q@,
    ensures
        thumbnail_filename(p@) == thumbnail_filename(q@),
{
}

fn hex_digit(d: u64) -> (r: &'static str)
    requires
        d < 16,
    ensures
        r@ == seq![hex_chars()[d as int]],
{
    let digits = "0123456789abcdef";
    proof {
        reveal_strlit("0123456789abcdef");
        assert(digits@ =~= hex_chars());
    }
    let r = digits.substring_char(d as usize, d as usize + 1);
    assert(r@ =~= seq![hex_chars()[d as int]]);
    r
}

fn append_hex(s: &mut String, n: u64)
    ensures
        final(s)@ == old(s)@ + hex_text(n as nat),
    decreases n,
{
    if n >= 16 {
        append_hex(s, n / 16);
        s.append(hex_digit(n % 16));
        assert(final(s)@ =~= old(s)@ + hex_text(n as nat));
    } else {
        s.append(hex_digit(n));
    }
}

/// The artifact file name under which the thumbnail of `image_path` is
/// cached. The name is stable across runs and machines.
pub fn get_thumbnail_filename(image_path: &str) -> (r: String)
    ensures
        r@ == thumbnail_filename(image_path@),
        is_safe_name(r@),
{
    let bytes = image_path.as_bytes();
    let mut h: u64 = FNV_OFFSET;
    let mut i: usize = 0;
    while i < bytes.len()
        invariant
            bytes@ == image_path.spec_bytes(),
            0 <= i <= bytes@.len(),
            h == fnv1a(bytes@.subrange(0, i as int)),
        decreases bytes@.len() - i,
    {
        assert(bytes@.subrange(0, i + 1).drop_last() =~= bytes@.subrange(0, i as int));
        h = (h ^ (bytes[i] as u64)).wrapping_mul(FNV_PRIME);
        i = i + 1;
    }
    assert(bytes@.subrange(0, i as int) =~= bytes@);
    let mut r = String::new();
    append_hex(&mut r, h);
    r.append(".webp");
    proof {
        reveal_strlit(".webp");
        assert(r@ =~= thumbnail_filename(image_path@));
        lemma_filename_is_safe(image_path@);
    }
    r
}

} // verus!
