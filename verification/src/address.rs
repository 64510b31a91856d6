//! Account addresses: a workchain number and a 256-bit account id.

use vstd::prelude::*;

verus! {

/// A 256-bit value held as two halves, most significant first.
#[derive(Clone, Copy, Debug, PartialEq, Eq, Structural, Hash)]
pub struct UInt256 {
    pub hi: u128,
    pub lo: u128,
}

/// The number that a sequence of bytes denotes, most significant byte first.
pub open spec fn be_value(bytes: Seq<u8>) -> nat
    decreases bytes.len(),
{
    if bytes.len() == 0 {
        0
    } else {
        be_value(bytes.drop_last()) * 256 + bytes.last() as nat
    }
}

/// 256 to the power `n`.
pub open spec fn pow256(n: nat) -> nat
    decreases n,
{
    if n == 0 {
        1
    } else {
        256 * pow256((n - 1) as nat)
    }
}

/// A sequence of `n` bytes denotes a number below 256 to the power `n`.
pub proof fn lemma_be_value_bound(bytes: Seq<u8>)
    ensures
        be_value(bytes) < pow256(bytes.len()),
    decreases bytes.len(),
{
    if bytes.len() > 0 {
        lemma_be_value_bound(bytes.drop_last());
    }
}

/// Two sequences of bytes of one length that denote the same number are the
/// same sequence.
pub proof fn lemma_be_value_injective(a: Seq<u8>, b: Seq<u8>)
    requires
        a.len() == b.len(),
        be_value(a) == be_value(b),
    ensures
        a == b,
    decreases a.len(),
{
    if a.len() > 0 {
        let x = be_value(a.drop_last());
        let y = be_value(b.drop_last());
        assert(x * 256 + a.last() as nat == y * 256 + b.last() as nat);
        assert(x == y);
        lemma_be_value_injective(a.drop_last(), b.drop_last());
        assert(a =~= a.drop_last().push(a.last()));
        assert(b =~= b.drop_last().push(b.last()));
    } else {
        assert(a =~= b);
    }
}

/// The 32 bytes are those of the value, most significant byte first.
pub open spec fn denotes(bytes: Seq<u8>, value: UInt256) -> bool {
    &&& bytes.len() == 32
    &&& be_value(bytes.subrange(0, 16)) == value.hi
    &&& be_value(bytes.subrange(16, 32)) == value.lo
}

/// A value has one sequence of 32 bytes and 32 bytes have one value: reading
/// the bytes that were written for a value gives the value back, and writing
/// the value that was read from bytes gives the bytes back.
pub proof fn lemma_bytes_round_trip(first: Seq<u8>, first_value: UInt256, second: Seq<u8>, second_value: UInt256)
    requires
        denotes(first, first_value),
        denotes(second, second_value),
    ensures
        first == second <==> first_value == second_value,
{
    if first_value == second_value {
        lemma_be_value_injective(first.subrange(0, 16), second.subrange(0, 16));
        lemma_be_value_injective(first.subrange(16, 32), second.subrange(16, 32));
        assert forall|i: int| 0 <= i < 32 implies first[i] == second[i] by {
            if i < 16 {
                assert(first.subrange(0, 16)[i] == second.subrange(0, 16)[i]);
            } else {
                assert(first.subrange(16, 32)[i - 16] == second.subrange(16, 32)[i - 16]);
            }
        }
        assert(first =~= second);
    }
}

proof fn lemma_pow256_grows(a: nat, b: nat)
    requires
        a <= b,
    ensures
        0 < pow256(a) <= pow256(b),
    decreases b,
{
    if a < b {
        lemma_pow256_grows(a, (b - 1) as nat);
    } else if a > 0 {
        lemma_pow256_grows((a - 1) as nat, (a - 1) as nat);
    }
}

proof fn lemma_pow256_of_16()
    ensures
        pow256(8) == 0x1_0000_0000_0000_0000,
        pow256(15) == 0x100_0000_0000_0000_0000_0000_0000_0000,
        pow256(16) == 0x1_0000_0000_0000_0000_0000_0000_0000_0000,
{
    reveal_with_fuel(pow256, 9);
    assert(pow256(8) == 0x1_0000_0000_0000_0000);
    assert(pow256(15) == 0x100_0000_0000_0000 * pow256(8));
    assert(pow256(16) == 256 * pow256(15));
}

fn read_half(bytes: &[u8; 32], start: usize) -> (r: u128)
    requires
        start <= 16,
    ensures
        r == be_value(bytes@.subrange(start as int, start + 16)),
{
    let mut acc: u128 = 0;
    let mut i: usize = 0;
    while i < 16
        invariant
            i <= 16,
            start <= 16,
            acc == be_value(bytes@.subrange(start as int, start + i)),
        decreases 16 - i,
    {
        proof {
            let seen = bytes@.subrange(start as int, start + i);
            lemma_be_value_bound(seen);
            lemma_pow256_grows(i as nat, 15);
            lemma_pow256_of_16();
            assert(bytes@.subrange(start as int, start + i + 1).drop_last() =~= seen);
        }
        acc = acc * 256 + bytes[start + i] as u128;
        i += 1;
    }
    acc
}

fn write_half(out: &mut [u8; 32], start: usize, value: u128)
    requires
        start <= 16,
    ensures
        be_value(final(out)@.subrange(start as int, start + 16)) == value,
        forall|j: int| 0 <= j < 32 && !(start <= j < start + 16) ==> final(out)@[j] == old(out)@[j],
{
    let mut divisor: u128 = 0x100_0000_0000_0000_0000_0000_0000_0000;
    let mut i: usize = 0;
    proof {
        lemma_pow256_of_16();
        assert(out@.subrange(start as int, start + 0) =~= Seq::<u8>::empty());
        vstd::arithmetic::div_mod::lemma_basic_div(value as int, pow256(16) as int);
    }
    while i < 16
        invariant
            i <= 16,
            start <= 16,
            i < 16 ==> divisor == pow256((15 - i) as nat),
            be_value(out@.subrange(start as int, start + i)) == value as nat / pow256((16 - i) as nat),
            forall|j: int| 0 <= j < 32 && !(start <= j < start + 16) ==> out@[j] == old(out)@[j],
        decreases 16 - i,
    {
        let ghost seen = out@.subrange(start as int, start + i);
        let ghost d = pow256((15 - i) as nat);
        proof {
            lemma_pow256_grows((15 - i) as nat, 15);
        }
        let byte = ((value / divisor) % 256) as u8;
        out[start + i] = byte;
        proof {
            assert(out@.subrange(start as int, start + i + 1).drop_last() =~= seen);
            assert(pow256((16 - i) as nat) == 256 * d);
            vstd::arithmetic::div_mod::lemma_div_denominator(value as int, d as int, 256);
            assert(d * 256 == 256 * d) by (nonlinear_arith);
            let q = value as int / d as int;
            assert((q / 256) * 256 + q % 256 == q) by {
                vstd::arithmetic::div_mod::lemma_fundamental_div_mod(q, 256);
            }
            if i < 15 {
                assert(d == 256 * pow256((14 - i) as nat));
            }
        }
        divisor = divisor / 256;
        i += 1;
    }
    proof {
        assert(pow256(0) == 1);
        assert(value as nat / 1 == value);
    }
}

impl UInt256 {
    /// The value that 32 bytes denote, most significant byte first.
    pub fn from_bytes(bytes: &[u8; 32]) -> (r: UInt256)
        ensures
            denotes(bytes@, r),
    {
        UInt256 { hi: read_half(bytes, 0), lo: read_half(bytes, 16) }
    }

    /// The 32 bytes of the value, most significant byte first.
    pub fn to_bytes(&self) -> (r: [u8; 32])
        ensures
            denotes(r@, *self),
    {
        let mut out = [0u8; 32];
        write_half(&mut out, 0, self.hi);
        let ghost first = out@.subrange(0, 16);
        write_half(&mut out, 16, self.lo);
        proof {
            assert(out@.subrange(0, 16) =~= first);
        }
        out
    }
}

/// The address of an account: the workchain it lives in and its account id.
#[derive(Clone, Copy, Debug, PartialEq, Eq, Structural, Hash)]
pub struct Address {
    pub workchain_id: i8,
    pub account_id: UInt256,
}

impl Address {
    /// Pairs an account id with the workchain it is placed in.
    pub fn new(workchain_id: i8, account_id: UInt256) -> (r: Address)
        ensures
            r == (Address { workchain_id, account_id }),
    {
        Address { workchain_id, account_id }
    }

    /// Whether two addresses name the same account.
    pub fn same(&self, other: &Address) -> (r: bool)
        ensures
            r == (*self == *other),
    {
        self.workchain_id == other.workchain_id && self.account_id.hi == other.account_id.hi
            && self.account_id.lo == other.account_id.lo
    }
}

} // verus!
