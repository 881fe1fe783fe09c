use vstd::prelude::*;

verus! {

// Reed-Solomon error-correction coding over GF(256), the field of the
// standard's generator polynomial x^8 + x^4 + x^3 + x^2 + 1 (0x11D).

/// One step of the carry-less product: shift-and-reduce, then add `x` when
/// bit `i` of `y` is set.
pub open spec fn spec_gf_step(z: u8, x: u8, y: u8, i: u32) -> u8 {
    ((z << 1u32) ^ (if (z >> 7u32) & 1 == 1 { 0x1Du8 } else { 0u8 })) ^ (if (y >> i) & 1 == 1 {
        x
    } else {
        0u8
    })
}

/// The accumulator after the first `k` steps of the product, which consume
/// bits 7 down to 8 - k of `y`.
pub open spec fn spec_gf_state(x: u8, y: u8, k: nat) -> u8
    decreases k,
{
    if k == 0 {
        0u8
    } else {
        spec_gf_step(spec_gf_state(x, y, (k - 1) as nat), x, y, (8 - k) as u32)
    }
}

/// The product of two field elements.
pub open spec fn spec_gf_mul(x: u8, y: u8) -> u8 {
    spec_gf_state(x, y, 8)
}

/// Multiplies two GF(256) field elements (Russian peasant multiplication
/// with reduction by 0x11D).
pub fn gf_multiply(x: u8, y: u8) -> (r: u8)
    ensures
        r == spec_gf_mul(x, y),
{
    let mut z: u8 = 0;
    let mut k: u8 = 0;
    while k < 8
        invariant
            k <= 8,
            z == spec_gf_state(x, y, k as nat),
        decreases 8 - k,
    {
        let i: u32 = (7 - k) as u32;
        let red: u8 = if (z >> 7u32) & 1 == 1 { 0x1D } else { 0 };
        let t: u8 = (z << 1u32) ^ red;
        z = t ^ (if (y >> i) & 1 == 1 { x } else { 0 });
        k = k + 1;
    }
    z
}

/// One multiply-by-(x - root) pass over the divisor coefficients.
pub open spec fn spec_div_step(res: Seq<u8>, root: u8) -> Seq<u8> {
    Seq::new(
        res.len(),
        |j: int|
            if j + 1 < res.len() {
                spec_gf_mul(res[j], root) ^ res[j + 1]
            } else {
                spec_gf_mul(res[j], root)
            },
    )
}

/// The root used by step `k` of the divisor construction: 2^k in GF(256).
pub open spec fn spec_root(k: nat) -> u8
    decreases k,
{
    if k == 0 {
        1u8
    } else {
        spec_gf_mul(spec_root((k - 1) as nat), 2)
    }
}

/// The divisor coefficients after `k` of the `degree` construction steps.
pub open spec fn spec_divisor_iter(degree: nat, k: nat) -> Seq<u8>
    decreases k,
{
    if k == 0 {
        Seq::new(degree, |j: int| if j == degree - 1 { 1u8 } else { 0u8 })
    } else {
        spec_div_step(spec_divisor_iter(degree, (k - 1) as nat), spec_root((k - 1) as nat))
    }
}

/// The Reed-Solomon generator polynomial of the given degree: the product
/// of (x - r^i) for i in [0, degree), as a coefficient sequence from the
/// second-highest power down to the constant term.
pub open spec fn spec_rs_divisor(degree: nat) -> Seq<u8> {
    spec_divisor_iter(degree, degree)
}

/// Builds the generator polynomial of the given degree by repeated
/// multiplication with monic binomials (x - r^i).
pub fn reed_solomon_compute_divisor(degree: usize) -> (r: Vec<u8>)
    requires
        1 <= degree <= 255,
    ensures
        r@ == spec_rs_divisor(degree as nat),
        r@.len() == degree,
{
    let mut result: Vec<u8> = Vec::new();
    let mut t: usize = 0;
    while t + 1 < degree
        invariant
            t < degree,
            result@ =~= Seq::new(t as nat, |j: int| 0u8),
        decreases degree - t,
    {
        result.push(0);
        proof {
            assert(result@ =~= Seq::new((t + 1) as nat, |j: int| 0u8));
        }
        t = t + 1;
    }
    result.push(1);
    proof {
        assert(result@ =~= spec_divisor_iter(degree as nat, 0));
    }
    let mut root: u8 = 1;
    let mut k: usize = 0;
    while k < degree
        invariant
            k <= degree <= 255,
            result@.len() == degree,
            result@ == spec_divisor_iter(degree as nat, k as nat),
            root == spec_root(k as nat),
        decreases degree - k,
    {
        let ghost prev = result@;
        let mut j: usize = 0;
        while j < degree
            invariant
                j <= degree,
                result@.len() == degree,
                prev.len() == degree,
                forall|jj: int| 0 <= jj < j ==> result@[jj] == spec_div_step(prev, root)[jj],
                forall|jj: int| j <= jj < degree ==> result@[jj] == prev[jj],
            decreases degree - j,
        {
            let v: u8 = if j + 1 < degree {
                gf_multiply(result[j], root) ^ result[j + 1]
            } else {
                gf_multiply(result[j], root)
            };
            result.set(j, v);
            j = j + 1;
        }
        proof {
            assert(result@ =~= spec_div_step(prev, root));
        }
        root = gf_multiply(root, 2);
        k = k + 1;
    }
    result
}

/// One division step: absorb data byte `b` into the running remainder.
pub open spec fn spec_rem_step(rem: Seq<u8>, div: Seq<u8>, b: u8) -> Seq<u8> {
    let factor = b ^ rem[0];
    Seq::new(
        rem.len(),
        |j: int|
            (if j + 1 < rem.len() {
                rem[j + 1]
            } else {
                0u8
            }) ^ spec_gf_mul(div[j], factor),
    )
}

/// The running remainder after absorbing the first `k` data bytes.
pub open spec fn spec_rem_iter(data: Seq<u8>, div: Seq<u8>, k: nat) -> Seq<u8>
    decreases k,
{
    if k == 0 {
        Seq::new(div.len(), |j: int| 0u8)
    } else {
        spec_rem_step(spec_rem_iter(data, div, (k - 1) as nat), div, data[k - 1])
    }
}

/// The remainder of the data polynomial divided by the generator: the
/// error-correction codewords of one block.
pub open spec fn spec_rs_remainder(data: Seq<u8>, div: Seq<u8>) -> Seq<u8> {
    spec_rem_iter(data, div, data.len())
}

/// Polynomial division of the block's data codewords by the generator;
/// the remainder is the block's error-correction codeword sequence.
pub fn reed_solomon_compute_remainder(data: &[u8], divisor: &Vec<u8>) -> (r: Vec<u8>)
    requires
        divisor@.len() >= 1,
    ensures
        r@ == spec_rs_remainder(data@, divisor@),
        r@.len() == divisor@.len(),
{
    let n = divisor.len();
    let mut result: Vec<u8> = Vec::new();
    let mut t: usize = 0;
    while t < n
        invariant
            t <= n,
            result@ =~= Seq::new(t as nat, |j: int| 0u8),
        decreases n - t,
    {
        result.push(0);
        proof {
            assert(result@ =~= Seq::new((t + 1) as nat, |j: int| 0u8));
        }
        t = t + 1;
    }
    let mut k: usize = 0;
    while k < data.len()
        invariant
            k <= data@.len(),
            n == divisor@.len() >= 1,
            result@.len() == n,
            result@ == spec_rem_iter(data@, divisor@, k as nat),
        decreases data@.len() - k,
    {
        let ghost prev = result@;
        let b = data[k];
        let factor = b ^ result[0];
        let mut j: usize = 0;
        while j < n
            invariant
                j <= n,
                n == divisor@.len(),
                result@.len() == n,
                prev.len() == n,
                factor == b ^ prev[0],
                forall|jj: int|
                    0 <= jj < j ==> result@[jj] == spec_rem_step(prev, divisor@, b)[jj],
                forall|jj: int| j <= jj < n ==> result@[jj] == prev[jj],
            decreases n - j,
        {
            let next: u8 = if j + 1 < n { result[j + 1] } else { 0 };
            result.set(j, next ^ gf_multiply(divisor[j], factor));
            j = j + 1;
        }
        proof {
            assert(result@ =~= spec_rem_step(prev, divisor@, b));
        }
        k = k + 1;
    }
    result
}

} // verus!
