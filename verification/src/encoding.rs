//! Little-endian interpretation of byte sequences as natural numbers.

use vstd::prelude::*;

verus! {

/// The natural number encoded by `s` in little-endian byte order.
pub open spec fn le_val(s: Seq<u8>) -> nat
    decreases s.len(),
{
    if s.len() == 0 {
        0
    } else {
        s.first() as nat + 256 * le_val(s.drop_first())
    }
}

/// Equal-length byte sequences with the same little-endian value are equal:
/// the encoding is injective at each fixed length.
pub proof fn lemma_le_val_injective(s1: Seq<u8>, s2: Seq<u8>)
    requires
        s1.len() == s2.len(),
        le_val(s1) == le_val(s2),
    ensures
        s1 == s2,
    decreases s1.len(),
{
    if s1.len() > 0 {
        let v = le_val(s1);
        assert(s1.first() == v % 256 && le_val(s1.drop_first()) == v / 256) by {
            lemma_le_val_decompose(s1);
        }
        assert(s2.first() == v % 256 && le_val(s2.drop_first()) == v / 256) by {
            lemma_le_val_decompose(s2);
        }
        lemma_le_val_injective(s1.drop_first(), s2.drop_first());
        assert forall|i: int| 0 <= i < s1.len() implies s1[i] == s2[i] by {
            if i > 0 {
                assert(s1[i] == s1.drop_first()[i - 1]);
                assert(s2[i] == s2.drop_first()[i - 1]);
            }
        }
        assert(s1 =~= s2);
    } else {
        assert(s1 =~= s2);
    }
}

/// The first byte and the remaining bytes of a nonempty sequence are the
/// remainder and quotient of its value by 256.
proof fn lemma_le_val_decompose(s: Seq<u8>)
    requires
        s.len() > 0,
    ensures
        s.first() == le_val(s) % 256,
        le_val(s.drop_first()) == le_val(s) / 256,
{
    let b = s.first() as int;
    let t = le_val(s.drop_first()) as int;
    assert(le_val(s) == b + 256 * t);
    vstd::arithmetic::div_mod::lemma_fundamental_div_mod_converse(b + 256 * t, 256, t, b);
}

} // verus!
