use vstd::prelude::*;
use vstd::string::StringSliceAdditionalSpecFns;

verus! {

/// Starting value of the byte fold.
pub const COLOR_SEED: u16 = 42;

/// XOR of all bytes, starting from the seed.
pub open spec fn xor_fold(bytes: Seq<u8>) -> u16
    decreases bytes.len(),
{
    if bytes.len() == 0 {
        COLOR_SEED
    } else {
        xor_fold(bytes.drop_last()) ^ (bytes.last() as u16)
    }
}

/// Palette indices that read badly on a dark background.
pub open spec fn unreadable(c: u16) -> bool {
    ||| c <= 1
    ||| 16 <= c <= 21
    ||| 52 <= c <= 55
    ||| 126 <= c <= 129
    ||| 163 <= c <= 165
    ||| 200 <= c <= 201
    ||| c == 207
    ||| 232 <= c <= 240
}

/// Moves an unreadable index by the fixed offset of its range.
pub open spec fn remap(c: u16) -> u16 {
    if c <= 1 {
        (c + 2) as u16
    } else if 16 <= c <= 21 {
        (c + 6) as u16
    } else if (52 <= c <= 55) || (126 <= c <= 129) {
        (c + 4) as u16
    } else if (163 <= c <= 165) || (200 <= c <= 201) {
        (c + 3) as u16
    } else if c == 207 {
        (c + 1) as u16
    } else if 232 <= c <= 240 {
        (c + 9) as u16
    } else {
        c
    }
}

/// The palette index for an identifier with these bytes.
pub open spec fn color_of(bytes: Seq<u8>) -> u16 {
    remap(xor_fold(bytes))
}

proof fn lemma_xor_small(a: u16, b: u16)
    requires
        a < 256,
        b < 256,
    ensures
        a ^ b < 256,
{
    assert(a < 256 && b < 256 ==> a ^ b < 256) by (bit_vector);
}

/// The fold never leaves the 256-entry palette.
pub proof fn lemma_xor_fold_in_palette(bytes: Seq<u8>)
    ensures
        xor_fold(bytes) < 256,
    decreases bytes.len(),
{
    if bytes.len() > 0 {
        lemma_xor_fold_in_palette(bytes.drop_last());
        lemma_xor_small(xor_fold(bytes.drop_last()), bytes.last() as u16);
    }
}

/// The colour of an identifier lies in the palette and never falls on an
/// unreadable index.
pub proof fn lemma_color_readable(bytes: Seq<u8>)
    ensures
        color_of(bytes) < 256,
        !unreadable(color_of(bytes)),
{
    lemma_xor_fold_in_palette(bytes);
}

/// The palette index for an identifier with these characters.
pub open spec fn text_color(s: Seq<char>) -> u16 {
    color_of(vstd::utf8::encode_utf8(s))
}

/// The display colour (a 256-colour palette index) of an identifier.
pub fn hashed_color(item: &str) -> (r: u16)
    ensures
        r == text_color(item@),
        r < 256,
        !unreadable(r),
{
    let bytes = item.as_bytes();
    let mut c: u16 = COLOR_SEED;
    let mut i: usize = 0;
    while i < bytes.len()
        invariant
            i <= bytes@.len(),
            bytes@ == item.spec_bytes(),
            c == xor_fold(bytes@.take(i as int)),
        decreases bytes@.len() - i,
    {
        assert(bytes@.take(i + 1).drop_last() =~= bytes@.take(i as int));
        c = c ^ (bytes[i] as u16);
        i = i + 1;
    }
    assert(bytes@.take(i as int) =~= bytes@);
    proof {
        lemma_color_readable(bytes@);
    }
    if c <= 1 {
        c + 2
    } else if 16 <= c && c <= 21 {
        c + 6
    } else if (52 <= c && c <= 55) || (126 <= c && c <= 129) {
        c + 4
    } else if (163 <= c && c <= 165) || (200 <= c && c <= 201) {
        c + 3
    } else if c == 207 {
        c + 1
    } else if 232 <= c && c <= 240 {
        c + 9
    } else {
        c
    }
}

} // verus!
