use vstd::prelude::*;

verus! {

use vstd::arithmetic::power2::{lemma2_to64, pow2};
use vstd::arithmetic::div_mod::lemma_fundamental_div_mod_converse;
use vstd::bits::{lemma_low_bits_mask_values, lemma_u64_low_bits_mask_is_mod,
    lemma_u64_shr_is_div};
use crate::data::{AccountId, Position};

/// Byte `j` (little-endian, `0 <= j < 8`) of a 64-bit word.
pub open spec fn spec_le_byte(x: u64, j: int) -> int {
    ((x as nat) / pow2((8 * j) as nat)) as int % 256
}

/// Byte `k` (little-endian, `0 <= k < 32`) of four 64-bit words.
pub open spec fn spec_key_byte(words: Seq<u64>, k: int) -> int {
    spec_le_byte(words[k / 8], k % 8)
}

/// Serializes four 64-bit words into 32 bytes, little-endian word by word.
pub fn array_to_le_bytes(array: &[u64; 4]) -> (bytes: [u8; 32])
    ensures
        forall|k: int| 0 <= k < 32 ==> #[trigger] bytes@[k] == spec_key_byte(array@, k),
{
    let mut bytes = [0u8; 32];
    let mut i: usize = 0;
    while i < 4
        invariant
            i <= 4,
            forall|k: int| 0 <= k < 8 * i ==> #[trigger] bytes@[k] == spec_key_byte(array@, k),
        decreases 4 - i,
    {
        let x = array[i];
        let mut j: usize = 0;
        while j < 8
            invariant
                j <= 8,
                i < 4,
                x == array@[i as int],
                forall|k: int|
                    0 <= k < 8 * i + j ==> #[trigger] bytes@[k] == spec_key_byte(array@, k),
            decreases 8 - j,
        {
            let shift: u64 = 8 * (j as u64);
            let b = ((x >> shift) & 0xff) as u8;
            proof {
                lemma_u64_shr_is_div(x, shift);
                lemma_u64_low_bits_mask_is_mod(x >> shift, 8);
                lemma_low_bits_mask_values();
                lemma2_to64();
                lemma_fundamental_div_mod_converse(
                    8 * (i as int) + (j as int),
                    8,
                    i as int,
                    j as int,
                );
            }
            bytes[i * 8 + j] = b;
            j = j + 1;
        }
        i = i + 1;
    }
    bytes
}

/// Packs four 64-bit words into an opaque account reference.
pub fn array_to_pubkey(array: &[u64; 4]) -> (r: AccountId)
    ensures
        r.words@ == array@,
{
    AccountId { words: *array }
}

/// The open-orders account reference of every market slot, in order.
pub fn get_oo_keys(agg: &Vec<Position>) -> (keys: Vec<AccountId>)
    ensures
        keys@.len() == agg@.len(),
        forall|i: int| 0 <= i < agg@.len() ==> #[trigger] keys@[i] == agg@[i].key,
{
    let mut keys: Vec<AccountId> = Vec::new();
    let mut i: usize = 0;
    while i < agg.len()
        invariant
            i <= agg@.len(),
            keys@.len() == i,
            forall|j: int| 0 <= j < i ==> #[trigger] keys@[j] == agg@[j].key,
        decreases agg@.len() - i,
    {
        keys.push(agg[i].key);
        i = i + 1;
    }
    keys
}

/// Byte-wise shard sum of an account reference: each byte's residue modulo
/// `m` added with 8-bit wraparound, over the first `n` of the 32 bytes.
pub open spec fn spec_shard_sum(words: Seq<u64>, m: int, n: int) -> int
    decreases n,
{
    if n <= 0 {
        0
    } else {
        let s = spec_shard_sum(words, m, n - 1);
        let b = spec_key_byte(words, n - 1) % m;
        if s + b > 255 {
            s + b - 256
        } else {
            s + b
        }
    }
}

/// Whether an account reference belongs to the shard `remainder` out of
/// `modulus`: the wrapped byte-residue sum, reduced modulo `modulus`, must
/// equal `remainder`.
pub fn is_right_remainder(key: &AccountId, modulus: u8, remainder: u8) -> (r: bool)
    requires
        modulus > 0,
    ensures
        r == (spec_shard_sum(key.words@, modulus as int, 32) % (modulus as int)
            == remainder as int),
{
    let bytes = array_to_le_bytes(&key.words);
    let mut sum: u8 = 0;
    let mut i: usize = 0;
    while i < 32
        invariant
            i <= 32,
            modulus > 0,
            forall|k: int| 0 <= k < 32 ==> #[trigger] bytes@[k] == spec_key_byte(key.words@, k),
            sum as int == spec_shard_sum(key.words@, modulus as int, i as int),
        decreases 32 - i,
    {
        sum = sum.wrapping_add(bytes[i] % modulus);
        i = i + 1;
    }
    sum % modulus == remainder
}

} // verus!
