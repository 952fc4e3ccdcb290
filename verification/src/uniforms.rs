//! The uniform block that the preview shader reads.
use crate::scalar::{Scalar, ZERO};
use vstd::prelude::*;

verus! {

// Colours of the preview: border #e0263c, fill #8f1e2d.
pub const BORDER_RED: u32 = 0x3f60_c49c;

pub const BORDER_GREEN: u32 = 0x3e18_9375;

pub const BORDER_BLUE: u32 = 0x3e70_a3d7;

pub const BORDER_ALPHA: u32 = 0x3f66_6666;

pub const FILL_RED: u32 = 0x3f0f_9db2;

pub const FILL_GREEN: u32 = 0x3df1_a9fc;

pub const FILL_BLUE: u32 = 0x3e34_3958;

/// How opaque the fill of a floating snap zone is.
pub const FILL_ALPHA_FLOATING: u32 = 0x3e23_d70a;

/// How opaque the fill of a tiling snap zone is.
pub const FILL_ALPHA_TILING: u32 = 0x3e85_1eb8;

/// The width of the border in logical pixels.
pub const BORDER_WIDTH: u32 = 0x4000_0000;

/// The radius of the corners in logical pixels.
pub const CORNER_RADIUS: u32 = 0x4120_0000;

/// The lengths of a preview, in logical pixels or scaled to buffer pixels.
#[derive(Clone, Copy, Debug, PartialEq, Eq, Structural)]
pub struct Geometry {
    pub x: Scalar,
    pub y: Scalar,
    pub w: Scalar,
    pub h: Scalar,
    pub radius: Scalar,
    pub border: Scalar,
}

/// The order of the bytes of a word in memory.
#[derive(Clone, Copy, Debug, PartialEq, Eq, Structural)]
pub enum ByteOrder {
    Little,
    Big,
}

/// The fill opacity of a snap zone.
pub open spec fn fill_alpha(tiling: bool) -> u32 {
    if tiling {
        FILL_ALPHA_TILING
    } else {
        FILL_ALPHA_FLOATING
    }
}

/// The words of the block: rectangle, border colour, fill colour, then corner
/// radius, overall opacity, border width and a word of padding.
pub open spec fn words(scaled: Geometry, tiling: bool, alpha: Scalar) -> Seq<u32> {
    seq![
        scaled.x.bits,
        scaled.y.bits,
        scaled.w.bits,
        scaled.h.bits,
        BORDER_RED,
        BORDER_GREEN,
        BORDER_BLUE,
        BORDER_ALPHA,
        FILL_RED,
        FILL_GREEN,
        FILL_BLUE,
        fill_alpha(tiling),
        scaled.radius.bits,
        alpha.bits,
        scaled.border.bits,
        ZERO,
    ]
}

/// The byte of `word` that weighs `256^place`.
pub open spec fn digit(word: u32, place: int) -> u8 {
    (if place == 0 {
        word % 0x100
    } else if place == 1 {
        word / 0x100 % 0x100
    } else if place == 2 {
        word / 0x1_0000 % 0x100
    } else {
        word / 0x100_0000
    }) as u8
}

/// The four bytes of `word` in the order in which they stand in memory.
pub open spec fn word_bytes(word: u32, order: ByteOrder) -> Seq<u8> {
    match order {
        ByteOrder::Little => seq![digit(word, 0), digit(word, 1), digit(word, 2), digit(word, 3)],
        ByteOrder::Big => seq![digit(word, 3), digit(word, 2), digit(word, 1), digit(word, 0)],
    }
}

/// The words one after the other in memory.
pub open spec fn encoded(words: Seq<u32>, order: ByteOrder) -> Seq<u8> {
    Seq::new(4 * words.len(), |i: int| word_bytes(words[i / 4], order)[i % 4])
}

/// The word that the four bytes from `at` on stand for.
pub open spec fn word_at(bytes: Seq<u8>, at: int, order: ByteOrder) -> int {
    match order {
        ByteOrder::Little => bytes[at] + bytes[at + 1] * 0x100 + bytes[at + 2] * 0x1_0000 + bytes[at
            + 3] * 0x100_0000,
        ByteOrder::Big => bytes[at + 3] + bytes[at + 2] * 0x100 + bytes[at + 1] * 0x1_0000
            + bytes[at] * 0x100_0000,
    }
}

/// `u32::to_ne_bytes`: the bytes of `word` as the machine keeps them in memory.
/// The contract claims that this is one of the two byte orders; which one, the
/// machine decides.
#[verifier::external_body]
fn to_native_bytes(word: u32) -> (r: [u8; 4])
    ensures
        r@ == word_bytes(word, ByteOrder::Little) || r@ == word_bytes(word, ByteOrder::Big),
{
    word.to_ne_bytes()
}

/// The byte order of a machine that keeps the number one as `bytes`.
pub fn order_of_one(bytes: &[u8; 4]) -> (r: ByteOrder)
    ensures
        r == (if bytes@[0] == 1 {
            ByteOrder::Little
        } else {
            ByteOrder::Big
        }),
        bytes@ == word_bytes(1, ByteOrder::Little) ==> r == ByteOrder::Little,
        bytes@ == word_bytes(1, ByteOrder::Big) ==> r == ByteOrder::Big,
{
    if bytes[0] == 1 {
        ByteOrder::Little
    } else {
        ByteOrder::Big
    }
}

/// Whether this machine, asked for the bytes of the number one, may show `order`.
pub closed spec fn shows(order: ByteOrder) -> bool {
    exists|one: [u8; 4]|
        #[trigger] call_ensures(to_native_bytes, (1u32,), one) && order == (if one@[0] == 1 {
            ByteOrder::Little
        } else {
            ByteOrder::Big
        })
}

/// Lays out the words of the block for the lengths in buffer pixels.
pub fn uniform_words(scaled: Geometry, tiling: bool, alpha: Scalar) -> (r: [u32; 16])
    ensures
        r@ == words(scaled, tiling, alpha),
{
    let fill: u32 = if tiling {
        FILL_ALPHA_TILING
    } else {
        FILL_ALPHA_FLOATING
    };
    let r: [u32; 16] = [
        scaled.x.bits,
        scaled.y.bits,
        scaled.w.bits,
        scaled.h.bits,
        BORDER_RED,
        BORDER_GREEN,
        BORDER_BLUE,
        BORDER_ALPHA,
        FILL_RED,
        FILL_GREEN,
        FILL_BLUE,
        fill,
        scaled.radius.bits,
        alpha.bits,
        scaled.border.bits,
        ZERO,
    ];
    assert(r@ =~= words(scaled, tiling, alpha));
    r
}

/// Writes the words of the block in the given byte order.
pub fn encode(words: &[u32; 16], order: ByteOrder) -> (r: [u8; 64])
    ensures
        r@ == encoded(words@, order),
{
    let mut r: [u8; 64] = [0u8; 64];
    let mut i: usize = 0;
    while i < 16
        invariant
            i <= 16,
            forall|k: int| 0 <= k < 4 * i ==> r@[k] == #[trigger] encoded(words@, order)[k],
        decreases 16 - i,
    {
        let word: u32 = words[i];
        let d0: u8 = (word % 0x100) as u8;
        let d1: u8 = (word / 0x100 % 0x100) as u8;
        let d2: u8 = (word / 0x1_0000 % 0x100) as u8;
        let d3: u8 = (word / 0x100_0000) as u8;
        let ghost before = r@;
        match order {
            ByteOrder::Little => {
                r[4 * i] = d0;
                r[4 * i + 1] = d1;
                r[4 * i + 2] = d2;
                r[4 * i + 3] = d3;
            },
            ByteOrder::Big => {
                r[4 * i] = d3;
                r[4 * i + 1] = d2;
                r[4 * i + 2] = d1;
                r[4 * i + 3] = d0;
            },
        }
        assert forall|k: int| 0 <= k < 4 * i + 4 implies r@[k] == #[trigger] encoded(
            words@,
            order,
        )[k] by {
            if k < 4 * i {
                assert(r@[k] == before[k]);
            } else {
                assert(k / 4 == i && (k % 4 == 0 || k % 4 == 1 || k % 4 == 2 || k % 4 == 3));
            }
        }
        i += 1;
    }
    assert(r@ =~= encoded(words@, order));
    r
}

/// Writes the words of the block as this machine keeps them in memory.
pub fn encode_native(words: &[u32; 16]) -> (r: [u8; 64])
    ensures
        exists|order: ByteOrder| #[trigger] shows(order) && r@ == encoded(words@, order),
{
    let one: [u8; 4] = to_native_bytes(1);
    let order: ByteOrder = order_of_one(&one);
    assert(shows(order));
    encode(words, order)
}

/// An order that the machine shows is one that its own bytes of the number one
/// bear out.
proof fn lemma_shown_order_is_the_machine_s(order: ByteOrder)
    requires
        shows(order),
    ensures
        exists|one: [u8; 4]| #[trigger]
            call_ensures(to_native_bytes, (1u32,), one) && (order is Little ==> one@[0] == 1) && (
            order is Big ==> one@[0] == 0 && one@[3] == 1),
{
    let one = choose|one: [u8; 4]| #[trigger]
        call_ensures(to_native_bytes, (1u32,), one) && order == (if one@[0] == 1 {
            ByteOrder::Little
        } else {
            ByteOrder::Big
        });
    assert(call_ensures(to_native_bytes, (1u32,), one));
}

/// Whoever reads the block in the byte order in which it was written gets every
/// word back.
pub proof fn lemma_encoded_words_read_back(words: Seq<u32>, order: ByteOrder, i: int)
    requires
        0 <= i < words.len(),
    ensures
        word_at(encoded(words, order), 4 * i, order) == words[i],
{
    let bytes = encoded(words, order);
    assert((4 * i) / 4 == i && (4 * i) % 4 == 0);
    assert((4 * i + 1) / 4 == i && (4 * i + 1) % 4 == 1);
    assert((4 * i + 2) / 4 == i && (4 * i + 2) % 4 == 2);
    assert((4 * i + 3) / 4 == i && (4 * i + 3) % 4 == 3);
}

} // verus!
