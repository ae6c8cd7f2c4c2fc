//! Program images: a program is stored as its words, each as four bytes with
//! the most significant first.
use vstd::prelude::*;

verus! {

use crate::bitpack::{newu, with_field};
use vstd::arithmetic::div_mod::{lemma_basic_div, lemma_small_mod};
use vstd::arithmetic::power2::{lemma2_to64, lemma_pow2_adds, lemma_pow2_strictly_increases, pow2};

/// Word `i` of the image `bytes`.
pub open spec fn be_word(bytes: Seq<u8>, i: int) -> u32 {
    (bytes[4 * i] * 0x100_0000 + bytes[4 * i + 1] * 0x1_0000 + bytes[4 * i + 2] * 0x100 + bytes[4
        * i + 3]) as u32
}

/// Puts byte `b` into the 8-bit field of `word` at bit `lsb`.
fn put_byte(word: u32, lsb: u64, b: u8) -> (r: u32)
    requires
        lsb <= 24,
        lsb % 8 == 0,
        word < pow2(lsb as nat),
    ensures
        r == word + b * pow2(lsb as nat),
        r < pow2((lsb + 8) as nat),
{
    proof {
        lemma2_to64();
    }
    match newu(word as u64, 8, lsb, b as u64) {
        Some(w) => {
            proof {
                let l = lsb as nat;
                lemma_pow2_strictly_increases(l, l + 8);
                lemma_pow2_adds(l, 8);
                lemma_small_mod(word as nat, pow2(l));
                lemma_small_mod(b as nat, pow2(8));
                lemma_basic_div(word as int, pow2(l + 8) as int);
                let v = (b as int % pow2(8) as int) as nat;
                assert(v == b);
                assert(w == (word as nat) % pow2(l) + v * pow2(l) + (word as nat) / pow2(l + 8) * pow2(l + 8));
                let q = (word as nat) / pow2(l + 8);
                assert(q == 0);
                assert(w == word + b * pow2(l)) by (nonlinear_arith)
                    requires
                        w == word + v * pow2(l) + q * pow2(l + 8),
                        q == 0,
                        v == b,
                ;
                assert(w < pow2(l + 8)) by (nonlinear_arith)
                    requires
                        w == word + b * pow2(l),
                        word < pow2(l),
                        b < 256,
                        pow2(l + 8) == pow2(l) * 256,
                ;
            }
            w as u32
        },
        None => 0,
    }
}

/// The words of the image `bytes`, or `None` when its length is not a
/// multiple of four.
pub fn words_from_be_bytes(bytes: &Vec<u8>) -> (r: Option<Vec<u32>>)
    ensures
        r is Some <==> bytes@.len() % 4 == 0,
        r matches Some(words) ==> {
            &&& words@.len() == bytes@.len() / 4
            &&& forall|i: int| 0 <= i < words@.len() ==> #[trigger] words@[i] == be_word(bytes@, i)
        },
{
    if bytes.len() % 4 != 0 {
        return None;
    }
    let n = bytes.len() / 4;
    let mut words: Vec<u32> = Vec::new();
    let mut i: usize = 0;
    while i < n
        invariant
            n == bytes@.len() / 4,
            bytes@.len() % 4 == 0,
            i <= n,
            words@.len() == i,
            forall|j: int| 0 <= j < i ==> #[trigger] words@[j] == be_word(bytes@, j),
        decreases n - i,
    {
        proof {
            lemma2_to64();
            assert(4 * i + 4 <= bytes@.len()) by (nonlinear_arith)
                requires
                    i < n,
                    n == bytes@.len() / 4,
                    bytes@.len() % 4 == 0,
            ;
            assert(4 * i + 3 < bytes.len());
        }
        let mut w: u32 = 0;
        w = put_byte(w, 0, bytes[4 * i + 3]);
        w = put_byte(w, 8, bytes[4 * i + 2]);
        w = put_byte(w, 16, bytes[4 * i + 1]);
        w = put_byte(w, 24, bytes[4 * i]);
        words.push(w);
        i = i + 1;
    }
    Some(words)
}

} // verus!
