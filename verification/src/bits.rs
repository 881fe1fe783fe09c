use vstd::prelude::*;

verus! {

/// The low `n` bits of `val`, most significant first.
pub open spec fn spec_bits_of(val: u32, n: nat) -> Seq<bool> {
    Seq::new(n, |i: int| (val >> ((n - 1 - i) as u32)) & 1 == 1)
}

/// Appends the low `n` bits of `val` to `buf`, most significant first.
pub fn append_bits(buf: &mut Vec<bool>, val: u32, n: u8)
    requires
        n <= 31,
        old(buf)@.len() + n <= usize::MAX,
    ensures
        final(buf)@ == old(buf)@ + spec_bits_of(val, n as nat),
{
    let ghost orig = buf@;
    let mut i: u8 = 0;
    while i < n
        invariant
            i <= n <= 31,
            orig.len() + n <= usize::MAX,
            buf@ == orig + spec_bits_of(val, n as nat).take(i as int),
        decreases n - i,
    {
        let sh: u32 = (n - 1 - i) as u32;
        let bit = (val >> sh) & 1 == 1;
        buf.push(bit);
        proof {
            assert(spec_bits_of(val, n as nat)[i as int] == bit);
            assert(spec_bits_of(val, n as nat).take(i + 1)
                =~= spec_bits_of(val, n as nat).take(i as int).push(bit));
        }
        i = i + 1;
    }
    proof {
        assert(spec_bits_of(val, n as nat).take(n as int) =~= spec_bits_of(val, n as nat));
    }
}

/// The value of one bit as 0 or 1.
pub open spec fn spec_bit_val(b: bool) -> int {
    if b { 1 } else { 0 }
}

/// The byte packed from `bits[8j .. 8j + 8]`, most significant first.
pub open spec fn spec_byte_at(bits: Seq<bool>, j: int) -> int {
    128 * spec_bit_val(bits[8 * j]) + 64 * spec_bit_val(bits[8 * j + 1])
        + 32 * spec_bit_val(bits[8 * j + 2]) + 16 * spec_bit_val(bits[8 * j + 3])
        + 8 * spec_bit_val(bits[8 * j + 4]) + 4 * spec_bit_val(bits[8 * j + 5])
        + 2 * spec_bit_val(bits[8 * j + 6]) + spec_bit_val(bits[8 * j + 7])
}

/// Packs a bit sequence whose length is a multiple of eight into bytes,
/// most significant bit of each byte first.
pub fn bits_to_bytes(bits: &Vec<bool>) -> (r: Vec<u8>)
    requires
        bits@.len() % 8 == 0,
    ensures
        r@.len() == bits@.len() / 8,
        forall|j: int| 0 <= j < r@.len() ==> r@[j] == spec_byte_at(bits@, j),
{
    let mut r: Vec<u8> = Vec::new();
    let n = bits.len() / 8;
    let mut j: usize = 0;
    while j < n
        invariant
            j <= n,
            n == bits@.len() / 8,
            bits@.len() % 8 == 0,
            r@.len() == j,
            forall|k: int| 0 <= k < j ==> r@[k] == spec_byte_at(bits@, k),
        decreases n - j,
    {
        proof {
            vstd::arithmetic::div_mod::lemma_fundamental_div_mod(bits@.len() as int, 8);
            assert(8 * j + 8 <= bits@.len());
        }
        let base = 8 * j;
        let byte: u8 = (if bits[base] { 128 } else { 0u8 }) + (if bits[base + 1] { 64 } else { 0 })
            + (if bits[base + 2] { 32 } else { 0 }) + (if bits[base + 3] { 16 } else { 0 })
            + (if bits[base + 4] { 8 } else { 0 }) + (if bits[base + 5] { 4 } else { 0 })
            + (if bits[base + 6] { 2 } else { 0 }) + (if bits[base + 7] { 1 } else { 0 });
        r.push(byte);
        j = j + 1;
    }
    r
}

} // verus!
