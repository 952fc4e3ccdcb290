//! What stands in the uniform block, told word by word and byte by byte.
use crate::scalar::Scalar;
use crate::uniforms::{ByteOrder, Geometry};
use vstd::prelude::*;

verus! {

/// Each length, the opacity, the two colours and the opacity of the fill for the
/// kind of zone stand in the word that the shader reads them from.
pub proof fn lemma_each_word_has_its_place(
    scaled: Geometry,
    tiling: bool,
    alpha: Scalar,
    r: [u32; 16],
)
    requires
        call_ensures(crate::uniforms::uniform_words, (scaled, tiling, alpha), r),
    ensures
        r@[0] == scaled.x.bits,
        r@[1] == scaled.y.bits,
        r@[2] == scaled.w.bits,
        r@[3] == scaled.h.bits,
        r@[4] == 0x3f60_c49c && r@[5] == 0x3e18_9375 && r@[6] == 0x3e70_a3d7,
        r@[7] == 0x3f66_6666,
        r@[8] == 0x3f0f_9db2 && r@[9] == 0x3df1_a9fc && r@[10] == 0x3e34_3958,
        tiling ==> r@[11] == 0x3e85_1eb8,
        !tiling ==> r@[11] == 0x3e23_d70a,
        r@[12] == scaled.radius.bits,
        r@[13] == alpha.bits,
        r@[14] == scaled.border.bits,
        r@[15] == 0,
{
}

/// Whether four bytes from `at` on are a word, lowest byte first.
pub open spec fn is_low_first(bytes: Seq<u8>, at: int, word: u32) -> bool {
    bytes[at] + 0x100 * bytes[at + 1] + 0x1_0000 * bytes[at + 2] + 0x100_0000 * bytes[at + 3]
        == word
}

/// Whether four bytes from `at` on are a word, highest byte first.
pub open spec fn is_high_first(bytes: Seq<u8>, at: int, word: u32) -> bool {
    0x100_0000 * bytes[at] + 0x1_0000 * bytes[at + 1] + 0x100 * bytes[at + 2] + bytes[at + 3]
        == word
}

proof fn lemma_encoded_word(words: Seq<u32>, i: int)
    requires
        0 <= i < words.len(),
    ensures
        is_low_first(crate::uniforms::encoded(words, ByteOrder::Little), 4 * i, words[i]),
        is_high_first(crate::uniforms::encoded(words, ByteOrder::Big), 4 * i, words[i]),
{
    assert((4 * i) / 4 == i && (4 * i) % 4 == 0);
    assert((4 * i + 1) / 4 == i && (4 * i + 1) % 4 == 1);
    assert((4 * i + 2) / 4 == i && (4 * i + 2) % 4 == 2);
    assert((4 * i + 3) / 4 == i && (4 * i + 3) % 4 == 3);
}

/// Each word takes the four bytes at its place, in the order asked for.
pub proof fn lemma_encode_writes_each_word(words: [u32; 16], order: ByteOrder, r: [u8; 64], i: int)
    requires
        call_ensures(crate::uniforms::encode, (&words, order), r),
        0 <= i < 16,
    ensures
        order is Little ==> is_low_first(r@, 4 * i, words@[i]),
        order is Big ==> is_high_first(r@, 4 * i, words@[i]),
{
    lemma_encoded_word(words@, i);
}

/// The machine's own bytes hold every word at its place, all in one order.
pub proof fn lemma_encode_native_writes_each_word(words: [u32; 16], r: [u8; 64])
    requires
        call_ensures(crate::uniforms::encode_native, (&words,), r),
    ensures
        (forall|i: int| 0 <= i < 16 ==> is_low_first(r@, 4 * i, #[trigger] words@[i])) || (forall|
            i: int,
        |
            0 <= i < 16 ==> is_high_first(r@, 4 * i, #[trigger] words@[i])),
{
    let order = choose|order: ByteOrder| #[trigger]
        crate::uniforms::shows(order) && r@ == crate::uniforms::encoded(words@, order);
    assert forall|i: int| 0 <= i < 16 implies (order is Little ==> is_low_first(
        r@,
        4 * i,
        #[trigger] words@[i],
    )) && (order is Big ==> is_high_first(r@, 4 * i, words@[i])) by {
        lemma_encoded_word(words@, i);
    }
}

/// A machine whose number one begins with a one keeps low bytes first; one whose
/// number one begins with a zero keeps them last.
pub proof fn lemma_order_shows_in_one(bytes: [u8; 4], r: ByteOrder)
    requires
        call_ensures(crate::uniforms::order_of_one, (&bytes,), r),
    ensures
        is_low_first(bytes@, 0, 1) ==> r is Little,
        is_high_first(bytes@, 0, 1) ==> r is Big,
{
}

} // verus!
