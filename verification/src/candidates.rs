//! Candidate sets: nine flags, one per digit, and their bit-mask forms.

use vstd::prelude::*;

verus! {

/// The candidates that a solver mask stands for: digit `d` is a candidate
/// exactly when bit `d` of the mask is set, for `d` from 1 to 9. Bit 0 and
/// the bits above 9 do not count.
pub open spec fn mask_choices(bitboard: usize) -> Seq<bool> {
    Seq::new(9, |k: int| bitboard & (1usize << ((k + 1) as usize)) != 0)
}

/// The candidates that a packed mask stands for: flag `k` is bit `k`.
pub open spec fn packed_choices(value: u16) -> Seq<bool> {
    Seq::new(9, |k: int| value & (1u16 << (k as u16)) != 0)
}

/// Whether `d` is the one and only candidate among `choices`.
pub open spec fn is_only_choice(choices: Seq<bool>, d: int) -> bool {
    &&& 1 <= d <= choices.len()
    &&& forall|k: int| 0 <= k < choices.len() ==> (#[trigger] choices[k] <==> k == d - 1)
}

/// Reads the candidates out of a solver mask.
pub fn to_choices(bitboard: usize) -> (choices: [bool; 9])
    ensures
        choices@ == mask_choices(bitboard),
{
    let mut choices = [false; 9];
    for i in 1..10usize
        invariant
            forall|k: int| 0 <= k < i - 1 ==> #[trigger] choices@[k] == mask_choices(bitboard)[k],
    {
        choices[i - 1] = (bitboard & (1usize << i)) != 0;
    }
    assert(choices@ =~= mask_choices(bitboard));
    choices
}

/// Unpacks nine flags from the low nine bits of `value`.
pub fn from_int(value: u16) -> (result: [bool; 9])
    ensures
        result@ == packed_choices(value),
{
    let mut result = [false; 9];
    for i in 0..9usize
        invariant
            forall|k: int| 0 <= k < i ==> #[trigger] result@[k] == packed_choices(value)[k],
    {
        result[i] = (value & (1u16 << (i as u16))) != 0;
    }
    assert(result@ =~= packed_choices(value));
    result
}

/// Setting bit `i` of a value below `2^i` sets that bit and no other, and
/// keeps the value below `2^(i + 1)`.
proof fn lemma_set_bit(x: u16, i: u16, k: u16)
    by (bit_vector)
    requires
        i < 9,
        k < 9,
        x < (1u16 << i),
    ensures
        ((x | (1u16 << i)) & (1u16 << k) != 0) == ((x & (1u16 << k) != 0) || k == i),
        (x | (1u16 << i)) < (1u16 << ((i + 1) as u16)),
        x < (1u16 << ((i + 1) as u16)),
        k >= i ==> x & (1u16 << k) == 0,
{
}

/// Packs nine flags into the low nine bits of a number: bit `k` is flag `k`.
pub fn to_int(arr: &[bool; 9]) -> (result: u16)
    ensures
        packed_choices(result) == arr@,
        result < 512,
{
    let mut result: u16 = 0;
    assert(0u16 < (1u16 << 0u16)) by (bit_vector);
    for i in 0..9usize
        invariant
            result < (1u16 << (i as u16)),
            forall|k: int| 0 <= k < i ==> #[trigger] packed_choices(result)[k] == arr@[k],
    {
        let ghost before = result;
        if arr[i] {
            result |= 1u16 << (i as u16);
        }
        proof {
            assert forall|k: int| 0 <= k < i + 1 implies #[trigger] packed_choices(result)[k]
                == arr@[k] by {
                lemma_set_bit(before, i as u16, k as u16);
                assert(packed_choices(before)[k] == (before & (1u16 << (k as u16)) != 0));
            }
            lemma_set_bit(before, i as u16, 0);
        }
    }
    assert((1u16 << 9u16) == 512) by (bit_vector);
    assert(packed_choices(result) =~= arr@);
    result
}

/// The digit that is the only candidate left, if exactly one is.
pub fn get_only_choice(choices: &[bool; 9]) -> (r: Option<u8>)
    ensures
        match r {
            Some(d) => is_only_choice(choices@, d as int),
            None => forall|d: int| !is_only_choice(choices@, d),
        },
{
    let mut count: usize = 0;
    let mut value: usize = 0;
    for i in 0..9usize
        invariant
            count <= i,
            value <= i,
            count == 0 ==> forall|k: int| 0 <= k < i ==> !#[trigger] choices@[k],
            count >= 1 ==> 1 <= value && choices@[value - 1],
            count == 1 ==> forall|k: int| 0 <= k < i ==> (#[trigger] choices@[k] <==> k == value - 1),
            count >= 2 ==> exists|a: int, b: int|
                0 <= a < b < i && #[trigger] choices@[a] && #[trigger] choices@[b],
    {
        if choices[i] {
            proof {
                if count == 1 {
                    assert(choices@[value - 1] && choices@[i as int]);
                } else if count >= 2 {
                    let (a, b) = choose|a: int, b: int|
                        0 <= a < b < i && #[trigger] choices@[a] && #[trigger] choices@[b];
                    assert(0 <= a < b < i + 1 && choices@[a] && choices@[b]);
                }
            }
            count += 1;
            value = i + 1;
        } else {
            proof {
                if count >= 2 {
                    let (a, b) = choose|a: int, b: int|
                        0 <= a < b < i && #[trigger] choices@[a] && #[trigger] choices@[b];
                    assert(0 <= a < b < i + 1 && choices@[a] && choices@[b]);
                }
            }
        }
    }
    if count == 1 {
        Some(value as u8)
    } else {
        proof {
            assert forall|d: int| !is_only_choice(choices@, d) by {
                if is_only_choice(choices@, d) {
                    if count == 0 {
                        assert(choices@[d - 1]);
                    } else {
                        let (a, b) = choose|a: int, b: int|
                            0 <= a < b < 9 && #[trigger] choices@[a] && #[trigger] choices@[b];
                        assert(choices@[a] <==> a == d - 1);
                        assert(choices@[b] <==> b == d - 1);
                    }
                }
            }
        }
        None
    }
}

} // verus!
