use vstd::prelude::*;
use crate::bits::{append_bits, bits_to_bytes, spec_bits_of, spec_byte_at};
use crate::ecc::QrCodeEcc;
use crate::gf256::{
    reed_solomon_compute_divisor, reed_solomon_compute_remainder, spec_rs_divisor,
    spec_rs_remainder,
};
use crate::segment::QrSegment;
use crate::tables::{
    ecc_codewords_per_block, lemma_table_facts, num_error_correction_blocks, num_data_codewords,
    spec_ecc_per_block, spec_num_blocks, spec_num_data_codewords, spec_total_codewords,
    total_codewords,
};

verus! {

// Assembly of the padded data-codeword stream and the block-structured
// error-correction interleave.

/// The header-and-data bit stream of a segment list at a version: for each
/// segment its four mode-indicator bits, its character count in the
/// version's indicator width, and its data bits, in order.
pub open spec fn spec_segs_bits(ss: Seq<QrSegment>, v: int) -> Seq<bool>
    decreases ss.len(),
{
    if ss.len() == 0 {
        Seq::empty()
    } else {
        spec_bits_of(ss[0].mode.spec_mode_bits() as u32, 4) + spec_bits_of(
            ss[0].numchars as u32,
            ss[0].mode.spec_cci_bits(v) as nat,
        ) + ss[0].data@ + spec_segs_bits(ss.skip(1), v)
    }
}

/// Total encoded bit length of a segment list at a version.
pub open spec fn spec_needed_bits(ss: Seq<QrSegment>, v: int) -> int
    decreases ss.len(),
{
    if ss.len() == 0 {
        0
    } else {
        4 + ss[0].mode.spec_cci_bits(v) + ss[0].data@.len() + spec_needed_bits(ss.skip(1), v)
    }
}

/// Every character count fits its version's count-indicator width.
pub open spec fn spec_fits_cci(ss: Seq<QrSegment>, v: int) -> bool {
    forall|i: int|
        0 <= i < ss.len() ==> (#[trigger] ss[i]).numchars < ss[i].mode.spec_cci_cap(v)
}

/// Whether the segments fit a symbol of the given version and level: the
/// counts are representable and the bit length does not exceed the data
/// capacity.
pub open spec fn spec_fits(ss: Seq<QrSegment>, e: QrCodeEcc, v: int) -> bool {
    spec_fits_cci(ss, v) && spec_needed_bits(ss, v) <= 8 * spec_num_data_codewords(v, e)
}

pub proof fn lemma_segs_bits_len(ss: Seq<QrSegment>, v: int)
    requires
        forall|i: int| 0 <= i < ss.len() ==> (#[trigger] ss[i]).wf(),
    ensures
        spec_segs_bits(ss, v).len() == spec_needed_bits(ss, v),
    decreases ss.len(),
{
    if ss.len() > 0 {
        assert(ss[0].wf());
        lemma_segs_bits_len(ss.skip(1), v);
    }
}

/// Bit `i` of the padding stream appended after the terminator: the bytes
/// 0xEC and 0x11 in alternation.
pub open spec fn spec_pad_bit(i: int) -> bool {
    if (i / 8) % 2 == 0 {
        spec_bits_of(0xECu32, 8)[i % 8]
    } else {
        spec_bits_of(0x11u32, 8)[i % 8]
    }
}

/// A bit stream padded to the capacity: up to four terminator zeros,
/// zeros to the next byte boundary, then alternating pad bytes.
pub open spec fn spec_padded(bits: Seq<bool>, cap: int) -> Seq<bool> {
    let used = bits.len();
    let term = if cap - used < 4 {
        cap - used
    } else {
        4int
    };
    let boundary = (8 - (used + term) % 8) % 8;
    let zeros = term + boundary;
    bits + Seq::new(zeros as nat, |i: int| false) + Seq::new(
        (cap - used - zeros) as nat,
        |i: int| spec_pad_bit(i),
    )
}

/// The complete padded data bit stream of a segment list: the segments'
/// bits brought to the (version, level) capacity.
pub open spec fn spec_assembled(ss: Seq<QrSegment>, v: int, e: QrCodeEcc) -> Seq<bool> {
    spec_padded(spec_segs_bits(ss, v), 8 * spec_num_data_codewords(v, e))
}

/// Builds the segments' header-and-data bit stream.
#[verifier::rlimit(100)]
fn assemble_seg_bits(segs: &Vec<QrSegment>, ver: u8, e: QrCodeEcc) -> (r: Vec<bool>)
    requires
        1 <= ver <= 40,
        forall|i: int| 0 <= i < segs@.len() ==> (#[trigger] segs@[i]).wf(),
        spec_fits(segs@, e, ver as int),
    ensures
        r@ == spec_segs_bits(segs@, ver as int),
        r@.len() == spec_needed_bits(segs@, ver as int),
{
    let ghost v = ver as int;
    proof {
        lemma_table_facts(v, e);
        lemma_segs_bits_len(segs@, v);
    }
    let mut buf: Vec<bool> = Vec::new();
    let mut i: usize = 0;
    proof {
        assert(segs@.skip(0) =~= segs@);
        assert(buf@ + spec_segs_bits(segs@, v) =~= spec_segs_bits(segs@, v));
    }
    while i < segs.len()
        invariant
            i <= segs@.len(),
            spec_segs_bits(segs@, v) == buf@ + spec_segs_bits(segs@.skip(i as int), v),
            buf@.len() == spec_needed_bits(segs@, v) - spec_needed_bits(segs@.skip(i as int), v),
            spec_needed_bits(segs@.skip(i as int), v) >= 0,
        decreases segs@.len() - i,
    {
        let seg = &segs[i];
        proof {
            let tail = segs@.skip(i as int);
            assert(tail[0] == segs@[i as int]);
            assert(tail.skip(1) =~= segs@.skip(i + 1));
            lemma_segs_bits_len(segs@.skip(i + 1), v);
            assert(spec_needed_bits(segs@.skip(i + 1), v) >= 0);
            assert(seg.numchars < seg.mode.spec_cci_cap(v));
            assert(buf@.len() + 4 + seg.mode.spec_cci_bits(v) + seg.data@.len()
                <= spec_needed_bits(segs@, v));
            assert(spec_needed_bits(segs@, v) <= 8 * spec_num_data_codewords(v, e) <= 23648);
        }
        append_bits(&mut buf, seg.mode.mode_bits() as u32, 4);
        let cci = seg.mode.cci_bits(ver);
        append_bits(&mut buf, seg.numchars as u32, cci);
        let mut k: usize = 0;
        let ghost prefix = buf@;
        while k < seg.data.len()
            invariant
                k <= seg.data@.len(),
                buf@ == prefix + seg.data@.take(k as int),
            decreases seg.data@.len() - k,
        {
            let b = seg.data[k];
            buf.push(b);
            proof {
                assert(seg.data@.take(k + 1) =~= seg.data@.take(k as int).push(b));
            }
            k = k + 1;
        }
        proof {
            assert(seg.data@.take(seg.data@.len() as int) =~= seg.data@);
            assert(spec_segs_bits(segs@, v) =~= buf@ + spec_segs_bits(segs@.skip(i + 1), v));
        }
        i = i + 1;
    }
    proof {
        assert(segs@.skip(segs@.len() as int) =~= Seq::empty());
        assert(buf@ =~= spec_segs_bits(segs@, v));
    }
    buf
}

/// Pads an assembled bit stream out to the capacity: the terminator, the
/// byte-boundary zeros, and the alternating pad bytes.
#[verifier::rlimit(100)]
fn append_padding(buf: &mut Vec<bool>, cap: usize)
    requires
        old(buf)@.len() <= cap,
        cap % 8 == 0,
        cap <= 30000,
    ensures
        final(buf)@ == spec_padded(old(buf)@, cap as int),
        final(buf)@.len() == cap,
{
    let ghost head = buf@;
    let used = buf.len();
    let term: usize = if cap - used < 4 {
        cap - used
    } else {
        4
    };
    let boundary: usize = (8 - (used + term) % 8) % 8;
    let zeros = term + boundary;
    proof {
        assert((used + zeros) % 8 == 0);
        assert(used + zeros <= cap) by {
            assert(used + term <= cap);
            assert(zeros - term < 8);
        }
    }
    let mut z: usize = 0;
    while z < zeros
        invariant
            z <= zeros,
            buf@.len() == head.len() + z,
            buf@ =~= head + Seq::new(z as nat, |t: int| false),
            zeros <= 11,
        decreases zeros - z,
    {
        buf.push(false);
        proof {
            assert(buf@ =~= head + Seq::new((z + 1) as nat, |t: int| false));
        }
        z = z + 1;
    }
    let mut p: usize = 0;
    let npad = cap - used - zeros;
    while p < npad
        invariant
            p <= npad,
            buf@.len() == (cap - npad) + p,
            npad == cap - used - zeros,
            (cap - npad) == used + zeros,
            npad % 8 == 0,
            p % 8 == 0,
            used == head.len(),
            buf@ =~= head + Seq::new(zeros as nat, |t: int| false) + Seq::new(
                p as nat,
                |t: int| spec_pad_bit(t),
            ),
        decreases npad - p,
    {
        let pb: u32 = if (p / 8) % 2 == 0 {
            0xEC
        } else {
            0x11
        };
        append_bits(buf, pb, 8);
        proof {
            assert forall|t: int| p <= t < p + 8 implies spec_pad_bit(t) == spec_bits_of(pb, 8)[t
                - p] by {
                assert(t / 8 == p / 8 && t % 8 == t - p) by (nonlinear_arith)
                    requires
                        p % 8 == 0 && p <= t < p + 8,
                ;
                assert((t / 8) % 2 == (p / 8) % 2);
            }
            assert(Seq::new((p + 8) as nat, |t: int| spec_pad_bit(t)) =~= Seq::new(
                p as nat,
                |t: int| spec_pad_bit(t),
            ) + spec_bits_of(pb, 8));
            assert(buf@ =~= head + Seq::new(zeros as nat, |t: int| false) + Seq::new(
                (p + 8) as nat,
                |t: int| spec_pad_bit(t),
            ));
        }
        p = p + 8;
    }
    proof {
        assert(buf@ =~= spec_padded(head, cap as int));
    }
}

/// Builds the padded data bit stream for the chosen version and level.
pub fn assemble_bits(segs: &Vec<QrSegment>, ver: u8, e: QrCodeEcc) -> (r: Vec<bool>)
    requires
        1 <= ver <= 40,
        forall|i: int| 0 <= i < segs@.len() ==> (#[trigger] segs@[i]).wf(),
        spec_fits(segs@, e, ver as int),
    ensures
        r@ == spec_assembled(segs@, ver as int, e),
        r@.len() == 8 * spec_num_data_codewords(ver as int, e),
        r@.len() % 8 == 0,
{
    let ghost v = ver as int;
    proof {
        lemma_table_facts(v, e);
    }
    let cap: usize = (num_data_codewords(ver, e) as usize) * 8;
    let mut buf: Vec<bool> = assemble_seg_bits(segs, ver, e);
    append_padding(&mut buf, cap);
    proof {
        vstd::arithmetic::div_mod::lemma_fundamental_div_mod(cap as int, 8);
    }
    buf
}

/// Data length of the shorter blocks at (version, level).
pub open spec fn spec_short_data_len(v: int, e: QrCodeEcc) -> int {
    spec_total_codewords(v) / spec_num_blocks(e, v) - spec_ecc_per_block(e, v)
}

/// How many of the blocks are one codeword shorter.
pub open spec fn spec_num_short_blocks(v: int, e: QrCodeEcc) -> int {
    spec_num_blocks(e, v) - spec_total_codewords(v) % spec_num_blocks(e, v)
}

/// Length of every padded block: short data length, one pad slot, and the
/// error-correction codewords.
pub open spec fn spec_block_len(v: int, e: QrCodeEcc) -> int {
    spec_short_data_len(v, e) + 1 + spec_ecc_per_block(e, v)
}

/// The data codewords of block `i`: the first `nsb` blocks take `sdl`
/// codewords each, the rest one more.
pub open spec fn spec_block_data(data: Seq<u8>, v: int, e: QrCodeEcc, i: int) -> Seq<u8> {
    let sdl = spec_short_data_len(v, e);
    let nsb = spec_num_short_blocks(v, e);
    if i < nsb {
        data.subrange(i * sdl, (i + 1) * sdl)
    } else {
        data.subrange(i * sdl + (i - nsb), (i + 1) * sdl + (i - nsb) + 1)
    }
}

/// Block `i` brought to the common length: its data, a zero pad slot for
/// the short blocks, and its error-correction codewords.
pub open spec fn spec_block_padded(data: Seq<u8>, v: int, e: QrCodeEcc, i: int) -> Seq<u8> {
    let bd = spec_block_data(data, v, e, i);
    let ecc = spec_rs_remainder(bd, spec_rs_divisor(spec_ecc_per_block(e, v) as nat));
    if i < spec_num_short_blocks(v, e) {
        bd + seq![0u8] + ecc
    } else {
        bd + ecc
    }
}

/// The codewords that row `k` of the round-robin interleave takes from
/// blocks `j` onward; the short blocks' pad slot is skipped.
pub open spec fn spec_inter_row(data: Seq<u8>, v: int, e: QrCodeEcc, k: int, j: int) -> Seq<u8>
    decreases spec_num_blocks(e, v) - j when j <= spec_num_blocks(e, v)
{
    let nb = spec_num_blocks(e, v);
    if j >= nb {
        Seq::empty()
    } else if k == spec_short_data_len(v, e) && j < spec_num_short_blocks(v, e) {
        spec_inter_row(data, v, e, k, j + 1)
    } else {
        seq![spec_block_padded(data, v, e, j)[k]] + spec_inter_row(data, v, e, k, j + 1)
    }
}

/// The interleaved codewords contributed by rows `k` onward.
pub open spec fn spec_inter_from(data: Seq<u8>, v: int, e: QrCodeEcc, k: int) -> Seq<u8>
    decreases spec_block_len(v, e) - k when k <= spec_block_len(v, e)
{
    if k >= spec_block_len(v, e) {
        Seq::empty()
    } else {
        spec_inter_row(data, v, e, k, 0) + spec_inter_from(data, v, e, k + 1)
    }
}

/// The final codeword sequence: every block's data plus error correction,
/// interleaved round-robin by codeword index.
pub open spec fn spec_add_ecc(data: Seq<u8>, v: int, e: QrCodeEcc) -> Seq<u8> {
    spec_inter_from(data, v, e, 0)
}

proof fn lemma_inter_row_len(data: Seq<u8>, v: int, e: QrCodeEcc, k: int, j: int)
    requires
        1 <= v <= 40,
        0 <= j <= spec_num_blocks(e, v),
    ensures
        spec_inter_row(data, v, e, k, j).len() == spec_num_blocks(e, v) - j - (if k
            == spec_short_data_len(v, e) && j < spec_num_short_blocks(v, e) {
            spec_num_short_blocks(v, e) - j
        } else {
            0
        }),
    decreases spec_num_blocks(e, v) - j,
{
    lemma_table_facts(v, e);
    if j < spec_num_blocks(e, v) {
        lemma_inter_row_len(data, v, e, k, j + 1);
    }
}

proof fn lemma_inter_from_len(data: Seq<u8>, v: int, e: QrCodeEcc, k: int)
    requires
        1 <= v <= 40,
        0 <= k <= spec_block_len(v, e),
    ensures
        spec_inter_from(data, v, e, k).len() == (spec_block_len(v, e) - k) * spec_num_blocks(e, v)
            - (if k <= spec_short_data_len(v, e) {
            spec_num_short_blocks(v, e)
        } else {
            0
        }),
    decreases spec_block_len(v, e) - k,
{
    lemma_table_facts(v, e);
    let nb = spec_num_blocks(e, v);
    let bl = spec_block_len(v, e);
    if k < bl {
        lemma_inter_row_len(data, v, e, k, 0);
        lemma_inter_from_len(data, v, e, k + 1);
        assert((bl - k) * nb == (bl - k - 1) * nb + nb) by (nonlinear_arith);
    }
}

/// The interleaved stream holds exactly the symbol's total codeword count:
/// every data and error-correction codeword is placed, none twice.
pub proof fn lemma_add_ecc_len(data: Seq<u8>, v: int, e: QrCodeEcc)
    requires
        1 <= v <= 40,
    ensures
        spec_add_ecc(data, v, e).len() == spec_total_codewords(v),
{
    lemma_table_facts(v, e);
    lemma_inter_from_len(data, v, e, 0);
    let nb = spec_num_blocks(e, v);
    let tot = spec_total_codewords(v);
    let sdl = spec_short_data_len(v, e);
    let ecc = spec_ecc_per_block(e, v);
    vstd::arithmetic::div_mod::lemma_fundamental_div_mod(tot, nb);
    assert((sdl + 1 + ecc) * nb == (tot / nb) * nb + nb) by (nonlinear_arith)
        requires
            sdl == tot / nb - ecc,
    ;
}

/// Splits the data codewords into the standard block structure, appends
/// each block's Reed-Solomon codewords, and interleaves all blocks'
/// codewords round-robin.
#[verifier::rlimit(100)]
pub fn add_ecc_and_interleave(data: &Vec<u8>, ver: u8, e: QrCodeEcc) -> (r: Vec<u8>)
    requires
        1 <= ver <= 40,
        data@.len() == spec_num_data_codewords(ver as int, e),
    ensures
        r@ == spec_add_ecc(data@, ver as int, e),
        r@.len() == spec_total_codewords(ver as int),
{
    let ghost v = ver as int;
    proof {
        lemma_table_facts(v, e);
    }
    let nb: usize = num_error_correction_blocks(ver, e) as usize;
    let ecc: usize = ecc_codewords_per_block(ver, e) as usize;
    let tot: usize = total_codewords(ver) as usize;
    let sdl: usize = tot / nb - ecc;
    let nsb: usize = nb - tot % nb;
    let maxlen: usize = sdl + 1 + ecc;
    let divisor = reed_solomon_compute_divisor(ecc);
    let mut blocks: Vec<Vec<u8>> = Vec::new();
    let mut k: usize = 0;
    let mut i: usize = 0;
    proof {
        vstd::arithmetic::div_mod::lemma_fundamental_div_mod(tot as int, nb as int);
        assert(nsb * sdl + (nb - nsb) * (sdl + 1) + nb * ecc == tot) by (nonlinear_arith)
            requires
                sdl == tot / nb - ecc && nsb == nb - tot % nb && tot == (tot / nb) * nb + tot % nb
                    && 0 <= tot % nb < nb,
        ;
        assert(data@.len() == tot - nb * ecc);
    }
    while i < nb
        invariant
            i <= nb,
            nb == spec_num_blocks(e, v),
            ecc == spec_ecc_per_block(e, v),
            tot == spec_total_codewords(v),
            sdl == spec_short_data_len(v, e),
            nsb == spec_num_short_blocks(v, e),
            maxlen == spec_block_len(v, e),
            divisor@ == spec_rs_divisor(ecc as nat),
            divisor@.len() == ecc,
            data@.len() == spec_num_data_codewords(v, e),
            blocks@.len() == i,
            k == i * sdl + (if i > nsb {
                i - nsb
            } else {
                0
            }),
            k <= data@.len(),
            forall|bi: int|
                0 <= bi < i ==> (#[trigger] blocks@[bi])@ == spec_block_padded(data@, v, e, bi)
                    && blocks@[bi]@.len() == maxlen,
        decreases nb - i,
    {
        let datlen: usize = if i < nsb {
            sdl
        } else {
            sdl + 1
        };
        proof {
            assert((i + 1) * sdl == i * sdl + sdl) by (nonlinear_arith);
            assert(nsb * sdl + (nb - nsb) * (sdl + 1) + nb * ecc == tot) by (nonlinear_arith)
                requires
                    sdl == tot / nb - ecc && nsb == nb - tot % nb && tot == (tot / nb) * nb + tot
                        % nb && 0 <= tot % nb < nb,
            ;
            assert(k + datlen <= data@.len()) by (nonlinear_arith)
                requires
                    k as int == i * sdl + (if i > nsb {
                        i - nsb
                    } else {
                        0int
                    }) && i < nb && datlen as int == (if i < nsb {
                        sdl as int
                    } else {
                        sdl + 1int
                    }) && data@.len() == nsb * sdl + (nb - nsb) * (sdl + 1) && 0 < nb && 0 <= nsb
                        <= nb && 0 <= sdl,
            ;
        }
        let mut dat: Vec<u8> = Vec::new();
        let mut t: usize = 0;
        while t < datlen
            invariant
                t <= datlen,
                k + datlen <= data@.len(),
                dat@ =~= data@.subrange(k as int, k + t),
            decreases datlen - t,
        {
            dat.push(data[k + t]);
            proof {
                assert(dat@ =~= data@.subrange(k as int, k + t + 1));
            }
            t = t + 1;
        }
        let ecccw = reed_solomon_compute_remainder(dat.as_slice(), &divisor);
        proof {
            assert(dat@ == spec_block_data(data@, v, e, i as int));
        }
        let mut block = dat;
        if i < nsb {
            block.push(0);
        }
        let mut t2: usize = 0;
        let ghost blockpre = block@;
        while t2 < ecc
            invariant
                t2 <= ecc,
                ecccw@.len() == ecc,
                block@ =~= blockpre + ecccw@.take(t2 as int),
            decreases ecc - t2,
        {
            let b = ecccw[t2];
            block.push(b);
            proof {
                assert(ecccw@.take(t2 + 1) =~= ecccw@.take(t2 as int).push(b));
            }
            t2 = t2 + 1;
        }
        proof {
            assert(ecccw@.take(ecc as int) =~= ecccw@);
            assert(block@ =~= spec_block_padded(data@, v, e, i as int));
        }
        blocks.push(block);
        k = k + datlen;
        proof {
            assert((i + 1) * sdl == i * sdl + sdl) by (nonlinear_arith);
        }
        i = i + 1;
    }
    let mut result: Vec<u8> = Vec::new();
    let mut kk: usize = 0;
    proof {
        assert(result@ + spec_inter_from(data@, v, e, 0) =~= spec_add_ecc(data@, v, e));
    }
    while kk < maxlen
        invariant
            kk <= maxlen,
            nb == spec_num_blocks(e, v),
            ecc == spec_ecc_per_block(e, v),
            sdl == spec_short_data_len(v, e),
            nsb == spec_num_short_blocks(v, e),
            maxlen == spec_block_len(v, e),
            blocks@.len() == nb,
            forall|bi: int|
                0 <= bi < nb ==> (#[trigger] blocks@[bi])@ == spec_block_padded(data@, v, e, bi)
                    && blocks@[bi]@.len() == maxlen,
            spec_add_ecc(data@, v, e) == result@ + spec_inter_from(data@, v, e, kk as int),
        decreases maxlen - kk,
    {
        let mut j: usize = 0;
        proof {
            assert(result@ + spec_inter_row(data@, v, e, kk as int, 0) + spec_inter_from(
                data@,
                v,
                e,
                kk + 1,
            ) =~= result@ + spec_inter_from(data@, v, e, kk as int));
        }
        while j < nb
            invariant
                j <= nb,
                kk < maxlen,
                nb == spec_num_blocks(e, v),
                sdl == spec_short_data_len(v, e),
                nsb == spec_num_short_blocks(v, e),
                maxlen == spec_block_len(v, e),
                blocks@.len() == nb,
                forall|bi: int|
                    0 <= bi < nb ==> (#[trigger] blocks@[bi])@ == spec_block_padded(
                        data@,
                        v,
                        e,
                        bi,
                    ) && blocks@[bi]@.len() == maxlen,
                spec_add_ecc(data@, v, e) == result@ + spec_inter_row(data@, v, e, kk as int, j as int)
                    + spec_inter_from(data@, v, e, kk + 1),
            decreases nb - j,
        {
            if !(kk == sdl && j < nsb) {
                let cw = blocks[j][kk];
                result.push(cw);
                proof {
                    assert(spec_inter_row(data@, v, e, kk as int, j as int) =~= seq![cw]
                        + spec_inter_row(data@, v, e, kk as int, j + 1));
                    assert(result@ + spec_inter_row(data@, v, e, kk as int, j + 1)
                        + spec_inter_from(data@, v, e, kk + 1) =~= spec_add_ecc(data@, v, e));
                }
            }
            j = j + 1;
        }
        proof {
            assert(result@ + spec_inter_row(data@, v, e, kk as int, nb as int) + spec_inter_from(
                data@,
                v,
                e,
                kk + 1,
            ) =~= result@ + spec_inter_from(data@, v, e, kk + 1));
        }
        kk = kk + 1;
    }
    proof {
        assert(spec_inter_from(data@, v, e, maxlen as int) =~= Seq::<u8>::empty());
        assert(result@ =~= spec_add_ecc(data@, v, e));
        lemma_add_ecc_len(data@, v, e);
    }
    result
}

} // verus!
