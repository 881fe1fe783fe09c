use vstd::prelude::*;
use crate::bits::{append_bits, spec_bits_of};
use vstd::string::StringSliceAdditionalSpecFns;

verus! {

/// Character encoding mode of one segment.
#[derive(Clone, Copy, Debug, PartialEq, Eq, Structural)]
pub enum QrSegmentMode {
    Numeric,
    Alphanumeric,
    Byte,
    Kanji,
}

impl QrSegmentMode {
    /// The four-bit mode indicator placed before the segment.
    pub open spec fn spec_mode_bits(self) -> int {
        match self {
            QrSegmentMode::Numeric => 1,
            QrSegmentMode::Alphanumeric => 2,
            QrSegmentMode::Byte => 4,
            QrSegmentMode::Kanji => 8,
        }
    }

    pub fn mode_bits(self) -> (r: u8)
        ensures
            r == self.spec_mode_bits(),
    {
        match self {
            QrSegmentMode::Numeric => 1,
            QrSegmentMode::Alphanumeric => 2,
            QrSegmentMode::Byte => 4,
            QrSegmentMode::Kanji => 8,
        }
    }

    /// Width of the character-count indicator for this mode, by version
    /// tier (1-9, 10-26, 27-40).
    pub open spec fn spec_cci_bits(self, v: int) -> int {
        match self {
            QrSegmentMode::Numeric => if v <= 9 { 10 } else if v <= 26 { 12 } else { 14 },
            QrSegmentMode::Alphanumeric => if v <= 9 { 9 } else if v <= 26 { 11 } else { 13 },
            QrSegmentMode::Byte => if v <= 9 { 8 } else { 16 },
            QrSegmentMode::Kanji => if v <= 9 { 8 } else if v <= 26 { 10 } else { 12 },
        }
    }

    pub fn cci_bits(self, ver: u8) -> (r: u8)
        requires
            1 <= ver <= 40,
        ensures
            r == self.spec_cci_bits(ver as int),
    {
        match self {
            QrSegmentMode::Numeric => if ver <= 9 { 10 } else if ver <= 26 { 12 } else { 14 },
            QrSegmentMode::Alphanumeric => if ver <= 9 { 9 } else if ver <= 26 { 11 } else { 13 },
            QrSegmentMode::Byte => if ver <= 9 { 8 } else { 16 },
            QrSegmentMode::Kanji => if ver <= 9 { 8 } else if ver <= 26 { 10 } else { 12 },
        }
    }

    /// Exclusive upper bound of the character count representable in this
    /// mode's character-count indicator at the given version.
    pub open spec fn spec_cci_cap(self, v: int) -> int {
        match self {
            QrSegmentMode::Numeric => if v <= 9 { 1024 } else if v <= 26 { 4096 } else { 16384 },
            QrSegmentMode::Alphanumeric => if v <= 9 { 512 } else if v <= 26 { 2048 } else { 8192 },
            QrSegmentMode::Byte => if v <= 9 { 256 } else { 65536 },
            QrSegmentMode::Kanji => if v <= 9 { 256 } else if v <= 26 { 1024 } else { 4096 },
        }
    }

    pub fn cci_cap(self, ver: u8) -> (r: u32)
        requires
            1 <= ver <= 40,
        ensures
            r == self.spec_cci_cap(ver as int),
    {
        match self {
            QrSegmentMode::Numeric => if ver <= 9 { 1024 } else if ver <= 26 { 4096 } else { 16384 },
            QrSegmentMode::Alphanumeric => if ver <= 9 { 512 } else if ver <= 26 { 2048 } else { 8192 },
            QrSegmentMode::Byte => if ver <= 9 { 256 } else { 65536 },
            QrSegmentMode::Kanji => if ver <= 9 { 256 } else if ver <= 26 { 1024 } else { 4096 },
        }
    }
}

/// Whether the byte is an ASCII decimal digit.
pub open spec fn spec_is_digit(b: u8) -> bool {
    48 <= b <= 57
}

/// Whether every byte of the payload is a decimal digit.
pub open spec fn spec_is_numeric(s: Seq<u8>) -> bool {
    forall|i: int| 0 <= i < s.len() ==> spec_is_digit(#[trigger] s[i])
}

/// The value of a byte in the alphanumeric-mode character set
/// (0-9, A-Z, space, $ % * + - . / :), or -1 when it is outside the set.
pub open spec fn spec_alnum_val(b: u8) -> int {
    if 48 <= b <= 57 {
        b - 48
    } else if 65 <= b <= 90 {
        b - 55
    } else if b == 32 {
        36
    } else if b == 36 {
        37
    } else if b == 37 {
        38
    } else if b == 42 {
        39
    } else if b == 43 {
        40
    } else if b == 45 {
        41
    } else if b == 46 {
        42
    } else if b == 47 {
        43
    } else if b == 58 {
        44
    } else {
        -1
    }
}

/// Whether every byte of the payload lies in the alphanumeric character set.
pub open spec fn spec_is_alphanumeric(s: Seq<u8>) -> bool {
    forall|i: int| 0 <= i < s.len() ==> spec_alnum_val(#[trigger] s[i]) != -1
}

/// The value of the alphanumeric character set member `b`, as a number.
fn alnum_val(b: u8) -> (r: i8)
    ensures
        r == spec_alnum_val(b),
{
    if 48 <= b && b <= 57 {
        (b - 48) as i8
    } else if 65 <= b && b <= 90 {
        (b - 55) as i8
    } else if b == 32 {
        36
    } else if b == 36 {
        37
    } else if b == 37 {
        38
    } else if b == 42 {
        39
    } else if b == 43 {
        40
    } else if b == 45 {
        41
    } else if b == 46 {
        42
    } else if b == 47 {
        43
    } else if b == 58 {
        44
    } else {
        -1
    }
}

/// The bit stream of a numeric-mode segment: three digits in ten bits,
/// with one or two leftover digits in four or seven bits.
pub open spec fn spec_numeric_bits(s: Seq<u8>) -> Seq<bool>
    decreases s.len(),
{
    if s.len() == 0 {
        Seq::empty()
    } else if s.len() >= 3 {
        spec_bits_of((100 * (s[0] - 48) + 10 * (s[1] - 48) + (s[2] - 48)) as u32, 10)
            + spec_numeric_bits(s.skip(3))
    } else if s.len() == 2 {
        spec_bits_of((10 * (s[0] - 48) + (s[1] - 48)) as u32, 7)
    } else {
        spec_bits_of((s[0] - 48) as u32, 4)
    }
}

/// The bit stream of an alphanumeric-mode segment: two characters in eleven
/// bits, with one leftover character in six bits.
pub open spec fn spec_alnum_bits(s: Seq<u8>) -> Seq<bool>
    decreases s.len(),
{
    if s.len() == 0 {
        Seq::empty()
    } else if s.len() >= 2 {
        spec_bits_of((45 * spec_alnum_val(s[0]) + spec_alnum_val(s[1])) as u32, 11)
            + spec_alnum_bits(s.skip(2))
    } else {
        spec_bits_of(spec_alnum_val(s[0]) as u32, 6)
    }
}

/// The bit stream of a byte-mode segment: each byte as eight bits.
pub open spec fn spec_byte_bits(s: Seq<u8>) -> Seq<bool>
    decreases s.len(),
{
    if s.len() == 0 {
        Seq::empty()
    } else {
        spec_bits_of(s[0] as u32, 8) + spec_byte_bits(s.skip(1))
    }
}

/// Number of data bits that a segment of the given mode and character
/// count carries.
pub open spec fn spec_mode_data_bits(m: QrSegmentMode, n: int) -> int {
    match m {
        QrSegmentMode::Numeric => 10 * (n / 3) + (if n % 3 == 0 { 0int } else if n % 3 == 1 { 4 } else { 7 }),
        QrSegmentMode::Alphanumeric => 11 * (n / 2) + 6 * (n % 2),
        QrSegmentMode::Byte => 8 * n,
        QrSegmentMode::Kanji => 13 * n,
    }
}

pub proof fn lemma_numeric_bits_len(s: Seq<u8>)
    ensures
        spec_numeric_bits(s).len() == spec_mode_data_bits(QrSegmentMode::Numeric, s.len() as int),
    decreases s.len(),
{
    if s.len() >= 3 {
        lemma_numeric_bits_len(s.skip(3));
    }
}

pub proof fn lemma_alnum_bits_len(s: Seq<u8>)
    ensures
        spec_alnum_bits(s).len() == spec_mode_data_bits(QrSegmentMode::Alphanumeric, s.len() as int),
    decreases s.len(),
{
    if s.len() >= 2 {
        lemma_alnum_bits_len(s.skip(2));
    }
}

pub proof fn lemma_byte_bits_len(s: Seq<u8>)
    ensures
        spec_byte_bits(s).len() == spec_mode_data_bits(QrSegmentMode::Byte, s.len() as int),
    decreases s.len(),
{
    if s.len() >= 1 {
        lemma_byte_bits_len(s.skip(1));
    }
}

/// One mode-tagged bit segment of the payload. Immutable once built:
/// the constructors below are the intended builders.
#[derive(Debug)]
pub struct QrSegment {
    /// Character encoding mode.
    pub mode: QrSegmentMode,
    /// Number of characters (for byte mode: number of bytes) represented.
    pub numchars: usize,
    /// The segment's data bits, without mode or count indicators.
    pub data: Vec<bool>,
}

impl QrSegment {
    /// The data-bit count matches the mode's formula for the character count.
    pub open spec fn wf(self) -> bool {
        self.data@.len() == spec_mode_data_bits(self.mode, self.numchars as int)
    }
}

/// Builds a byte-mode segment: eight bits per payload byte.
pub fn make_bytes(data: &[u8]) -> (r: QrSegment)
    requires
        data@.len() <= usize::MAX / 8,
    ensures
        r.mode == QrSegmentMode::Byte,
        r.numchars == data@.len(),
        r.data@ == spec_byte_bits(data@),
        r.wf(),
{
    let mut buf: Vec<bool> = Vec::new();
    let mut i: usize = 0;
    proof {
        assert(data@.skip(0) =~= data@);
        assert(buf@ + spec_byte_bits(data@) =~= spec_byte_bits(data@));
    }
    while i < data.len()
        invariant
            i <= data@.len(),
            buf@.len() == 8 * i,
            spec_byte_bits(data@) == buf@ + spec_byte_bits(data@.skip(i as int)),
        decreases data@.len() - i,
    {
        append_bits(&mut buf, data[i] as u32, 8);
        proof {
            let tail = data@.skip(i as int);
            assert(tail[0] == data@[i as int]);
            assert(tail.skip(1) =~= data@.skip(i + 1));
            assert(spec_byte_bits(tail) == spec_bits_of(data@[i as int] as u32, 8)
                + spec_byte_bits(data@.skip(i + 1)));
            assert(spec_byte_bits(data@) =~= buf@ + spec_byte_bits(data@.skip(i + 1)));
        }
        i = i + 1;
    }
    proof {
        assert(data@.skip(data@.len() as int) =~= Seq::empty());
        assert(spec_byte_bits(data@) =~= buf@);
        lemma_byte_bits_len(data@);
    }
    QrSegment { mode: QrSegmentMode::Byte, numchars: data.len(), data: buf }
}

/// Builds a numeric-mode segment from decimal-digit bytes.
pub fn make_numeric(data: &[u8]) -> (r: QrSegment)
    requires
        spec_is_numeric(data@),
        data@.len() <= usize::MAX / 8,
    ensures
        r.mode == QrSegmentMode::Numeric,
        r.numchars == data@.len(),
        r.data@ == spec_numeric_bits(data@),
        r.wf(),
{
    let mut buf: Vec<bool> = Vec::new();
    let mut i: usize = 0;
    proof {
        assert(data@.skip(0) =~= data@);
        assert(buf@ + spec_numeric_bits(data@) =~= spec_numeric_bits(data@));
    }
    while i + 3 <= data.len()
        invariant
            i <= data@.len(),
            i % 3 == 0,
            buf@.len() <= 4 * i,
            spec_numeric_bits(data@) == buf@ + spec_numeric_bits(data@.skip(i as int)),
        decreases data@.len() - i,
    {
        let v: u32 = 100 * ((data[i] - 48) as u32) + 10 * ((data[i + 1] - 48) as u32) + ((data[i
            + 2] - 48) as u32);
        append_bits(&mut buf, v, 10);
        proof {
            let tail = data@.skip(i as int);
            assert(tail[0] == data@[i as int] && tail[1] == data@[i + 1] && tail[2] == data@[i
                + 2]);
            assert(tail.skip(3) =~= data@.skip(i + 3));
            assert(spec_numeric_bits(data@) =~= buf@ + spec_numeric_bits(data@.skip(i + 3)));
        }
        i = i + 3;
    }
    if i + 2 == data.len() {
        let v: u32 = 10 * ((data[i] - 48) as u32) + ((data[i + 1] - 48) as u32);
        append_bits(&mut buf, v, 7);
        proof {
            let tail = data@.skip(i as int);
            assert(tail.len() == 2 && tail[0] == data@[i as int] && tail[1] == data@[i + 1]);
            assert(spec_numeric_bits(data@) =~= buf@);
        }
    } else if i + 1 == data.len() {
        let v: u32 = (data[i] - 48) as u32;
        append_bits(&mut buf, v, 4);
        proof {
            let tail = data@.skip(i as int);
            assert(tail.len() == 1 && tail[0] == data@[i as int]);
            assert(spec_numeric_bits(data@) =~= buf@);
        }
    } else {
        proof {
            assert(data@.skip(i as int).len() == 0);
            assert(spec_numeric_bits(data@) =~= buf@);
        }
    }
    proof {
        lemma_numeric_bits_len(data@);
    }
    QrSegment { mode: QrSegmentMode::Numeric, numchars: data.len(), data: buf }
}

/// Builds an alphanumeric-mode segment from character-set bytes.
#[verifier::rlimit(30)]
pub fn make_alphanumeric(data: &[u8]) -> (r: QrSegment)
    requires
        spec_is_alphanumeric(data@),
        data@.len() <= usize::MAX / 8,
    ensures
        r.mode == QrSegmentMode::Alphanumeric,
        r.numchars == data@.len(),
        r.data@ == spec_alnum_bits(data@),
        r.wf(),
{
    let mut buf: Vec<bool> = Vec::new();
    let mut i: usize = 0;
    proof {
        assert(data@.skip(0) =~= data@);
        assert(buf@ + spec_alnum_bits(data@) =~= spec_alnum_bits(data@));
    }
    while i + 2 <= data.len()
        invariant
            i <= data@.len(),
            i % 2 == 0,
            buf@.len() <= 6 * i,
            spec_alnum_bits(data@) == buf@ + spec_alnum_bits(data@.skip(i as int)),
        decreases data@.len() - i,
    {
        let a = alnum_val(data[i]);
        let b = alnum_val(data[i + 1]);
        let v: u32 = 45 * (a as u32) + (b as u32);
        append_bits(&mut buf, v, 11);
        proof {
            let tail = data@.skip(i as int);
            assert(tail[0] == data@[i as int] && tail[1] == data@[i + 1]);
            assert(tail.skip(2) =~= data@.skip(i + 2));
            assert(spec_alnum_bits(data@) =~= buf@ + spec_alnum_bits(data@.skip(i + 2)));
        }
        i = i + 2;
    }
    if i < data.len() {
        let a = alnum_val(data[i]);
        append_bits(&mut buf, a as u32, 6);
        proof {
            let tail = data@.skip(i as int);
            assert(tail.len() == 1 && tail[0] == data@[i as int]);
            assert(spec_alnum_bits(data@) =~= buf@);
        }
    } else {
        proof {
            assert(data@.skip(i as int).len() == 0);
            assert(spec_alnum_bits(data@) =~= buf@);
        }
    }
    proof {
        lemma_alnum_bits_len(data@);
    }
    QrSegment { mode: QrSegmentMode::Alphanumeric, numchars: data.len(), data: buf }
}

/// Whether every byte of the slice is a decimal digit.
pub fn is_numeric_bytes(data: &[u8]) -> (r: bool)
    ensures
        r == spec_is_numeric(data@),
{
    let mut i: usize = 0;
    while i < data.len()
        invariant
            i <= data@.len(),
            forall|k: int| 0 <= k < i ==> spec_is_digit(#[trigger] data@[k]),
        decreases data@.len() - i,
    {
        let b = data[i];
        if b < 48 || b > 57 {
            return false;
        }
        i = i + 1;
    }
    true
}

/// Whether every byte of the slice lies in the alphanumeric character set.
pub fn is_alphanumeric_bytes(data: &[u8]) -> (r: bool)
    ensures
        r == spec_is_alphanumeric(data@),
{
    let mut i: usize = 0;
    while i < data.len()
        invariant
            i <= data@.len(),
            forall|k: int| 0 <= k < i ==> spec_alnum_val(#[trigger] data@[k]) != -1,
        decreases data@.len() - i,
    {
        if alnum_val(data[i]) == -1 {
            return false;
        }
        i = i + 1;
    }
    true
}

/// Splits a text payload into segments with a greedy single-mode
/// classification: a run of digits becomes one numeric segment, a payload
/// inside the alphanumeric character set one alphanumeric segment, anything
/// else one byte-mode segment over its UTF-8 bytes; an empty payload yields
/// no segment. The same input always yields the same segmentation.
pub fn make_segments(text: &str) -> (r: Vec<QrSegment>)
    requires
        text.spec_bytes().len() <= usize::MAX / 8,
    ensures
        forall|i: int| 0 <= i < r@.len() ==> (#[trigger] r@[i]).wf(),
        text.spec_bytes().len() == 0 ==> r@.len() == 0,
        text.spec_bytes().len() > 0 ==> r@.len() == 1 && r@[0].numchars == text.spec_bytes().len(),
        text.spec_bytes().len() > 0 && spec_is_numeric(text.spec_bytes()) ==> r@[0].mode
            == QrSegmentMode::Numeric && r@[0].data@ == spec_numeric_bits(text.spec_bytes()),
        text.spec_bytes().len() > 0 && !spec_is_numeric(text.spec_bytes()) && spec_is_alphanumeric(
            text.spec_bytes(),
        ) ==> r@[0].mode == QrSegmentMode::Alphanumeric && r@[0].data@ == spec_alnum_bits(
            text.spec_bytes(),
        ),
        text.spec_bytes().len() > 0 && !spec_is_alphanumeric(text.spec_bytes()) ==> r@[0].mode
            == QrSegmentMode::Byte && r@[0].data@ == spec_byte_bits(text.spec_bytes()),
{
    let bytes: &[u8] = text.as_bytes();
    let mut r: Vec<QrSegment> = Vec::new();
    if bytes.len() == 0 {
        return r;
    }
    if is_numeric_bytes(bytes) {
        r.push(make_numeric(bytes));
    } else if is_alphanumeric_bytes(bytes) {
        r.push(make_alphanumeric(bytes));
    } else {
        r.push(make_bytes(bytes));
    }
    r
}

} // verus!
