//! Little-endian byte order: the model of the accessor integers.
use vstd::prelude::*;

verus! {

/// The number that `bytes` stand for, least significant byte first.
pub open spec fn le_value(bytes: Seq<u8>) -> nat
    decreases bytes.len(),
{
    if bytes.len() == 0 {
        0
    } else {
        bytes[0] as nat + 256 * le_value(bytes.drop_first())
    }
}

/// The `n` least significant bytes of `x`, least significant first.
pub open spec fn le_bytes(x: nat, n: nat) -> Seq<u8>
    decreases n,
{
    if n == 0 {
        Seq::empty()
    } else {
        seq![(x % 256) as u8] + le_bytes(x / 256, (n - 1) as nat)
    }
}

/// 256 to the power `n`.
pub open spec fn byte_power(n: nat) -> nat
    decreases n,
{
    if n == 0 {
        1
    } else {
        256 * byte_power((n - 1) as nat)
    }
}

/// Reading back the `n` least significant bytes of `x` gives `x` modulo
/// `256^n`.
pub proof fn lemma_le_value_of_bytes(x: nat, n: nat)
    ensures
        le_bytes(x, n).len() == n,
        le_value(le_bytes(x, n)) == x % byte_power(n),
    decreases n,
{
    if n > 0 {
        let m = (n - 1) as nat;
        lemma_le_value_of_bytes(x / 256, m);
        let s = le_bytes(x, n);
        assert(s.drop_first() =~= le_bytes(x / 256, m));
        assert(byte_power(m) > 0) by {
            lemma_byte_power_positive(m);
        }
        vstd::arithmetic::div_mod::lemma_breakdown(x as int, 256, byte_power(m) as int);
    }
}

proof fn lemma_byte_power_positive(n: nat)
    ensures
        byte_power(n) > 0,
    decreases n,
{
    if n > 0 {
        lemma_byte_power_positive((n - 1) as nat);
    }
}

} // verus!
