use vstd::prelude::*;
use crate::qrcode::QrCode;
use vstd::string::StringSliceAdditionalSpecFns;

verus! {

// Integer-only rendering helpers: decimal formatting, color parsing,
// base64, and SVG path emission.

/// The decimal digit character of a value below ten.
pub open spec fn spec_digit(d: int) -> char {
    ((48 + d) as u8) as char
}

/// The decimal representation of a nonnegative number, most significant
/// digit first.
pub open spec fn spec_dec(n: int) -> Seq<char>
    decreases n,
{
    if n < 10 {
        seq![spec_digit(n)]
    } else {
        spec_dec(n / 10) + seq![spec_digit(n % 10)]
    }
}

/// The one-character string of a decimal digit.
fn digit_str(d: u8) -> (r: &'static str)
    requires
        d < 10,
    ensures
        r@ == seq![spec_digit(d as int)],
{
    proof {
        reveal_strlit("0");
        reveal_strlit("1");
        reveal_strlit("2");
        reveal_strlit("3");
        reveal_strlit("4");
        reveal_strlit("5");
        reveal_strlit("6");
        reveal_strlit("7");
        reveal_strlit("8");
        reveal_strlit("9");
    }
    if d == 0 {
        "0"
    } else if d == 1 {
        "1"
    } else if d == 2 {
        "2"
    } else if d == 3 {
        "3"
    } else if d == 4 {
        "4"
    } else if d == 5 {
        "5"
    } else if d == 6 {
        "6"
    } else if d == 7 {
        "7"
    } else if d == 8 {
        "8"
    } else {
        "9"
    }
}

/// Appends the decimal representation of `n`.
pub fn append_dec(s: &mut String, n: u32)
    ensures
        final(s)@ == old(s)@ + spec_dec(n as int),
    decreases n,
{
    if n < 10 {
        s.append(digit_str(n as u8));
    } else {
        append_dec(s, n / 10);
        s.append(digit_str((n % 10) as u8));
        proof {
            assert(old(s)@ + spec_dec(n as int / 10) + seq![spec_digit(n as int % 10)] =~= old(
                s,
            )@ + spec_dec(n as int));
        }
    }
}

/// The value of an ASCII hex digit, or -1 for any other byte.
pub open spec fn spec_hex_val(b: u8) -> int {
    if 48 <= b <= 57 {
        b - 48
    } else if 65 <= b <= 70 {
        b - 55
    } else if 97 <= b <= 102 {
        b - 87
    } else {
        -1
    }
}

fn hex_val(b: u8) -> (r: i8)
    ensures
        r == spec_hex_val(b),
{
    if 48 <= b && b <= 57 {
        (b - 48) as i8
    } else if 65 <= b && b <= 70 {
        (b - 55) as i8
    } else if 97 <= b && b <= 102 {
        (b - 87) as i8
    } else {
        -1
    }
}

/// The bytes left after stripping every leading number sign.
pub open spec fn spec_strip_hash(s: Seq<u8>) -> Seq<u8>
    decreases s.len(),
{
    if s.len() > 0 && s[0] == 35 {
        spec_strip_hash(s.skip(1))
    } else {
        s
    }
}

/// Whether every byte is a hex digit.
pub open spec fn spec_all_hex(s: Seq<u8>) -> bool {
    forall|i: int| 0 <= i < s.len() ==> spec_hex_val(#[trigger] s[i]) != -1
}

/// The channel values of a six- or three-digit hex color.
pub open spec fn spec_hex_color(t: Seq<u8>) -> (int, int, int) {
    if t.len() == 6 {
        (
            16 * spec_hex_val(t[0]) + spec_hex_val(t[1]),
            16 * spec_hex_val(t[2]) + spec_hex_val(t[3]),
            16 * spec_hex_val(t[4]) + spec_hex_val(t[5]),
        )
    } else {
        (17 * spec_hex_val(t[0]), 17 * spec_hex_val(t[1]), 17 * spec_hex_val(t[2]))
    }
}

/// Parses a hex color of six digits (or three, doubled), with any number
/// of leading number signs: the red, green and blue channel values.
pub fn parse_hex_color(hex: &str) -> (r: Option<(u8, u8, u8)>)
    ensures
        ({
            let t = spec_strip_hash(hex.spec_bytes());
            &&& (r is Some) == ((t.len() == 6 || t.len() == 3) && spec_all_hex(t))
            &&& r matches Some(c) ==> (c.0 == spec_hex_color(t).0 && c.1 == spec_hex_color(t).1
                && c.2 == spec_hex_color(t).2)
        }),
{
    let bytes = hex.as_bytes();
    let mut i: usize = 0;
    proof {
        assert(bytes@.skip(0) =~= bytes@);
    }
    while i < bytes.len() && bytes[i] == 35
        invariant
            i <= bytes@.len(),
            spec_strip_hash(bytes@) == spec_strip_hash(bytes@.skip(i as int)),
            forall|k: int| 0 <= k < i ==> bytes@[k] == 35,
        decreases bytes@.len() - i,
    {
        proof {
            assert(bytes@.skip(i as int).skip(1) =~= bytes@.skip(i + 1));
        }
        i = i + 1;
    }
    let ghost t = spec_strip_hash(bytes@);
    proof {
        assert(t =~= bytes@.skip(i as int));
    }
    let n = bytes.len() - i;
    if n == 6 {
        let v0 = hex_val(bytes[i]);
        let v1 = hex_val(bytes[i + 1]);
        let v2 = hex_val(bytes[i + 2]);
        let v3 = hex_val(bytes[i + 3]);
        let v4 = hex_val(bytes[i + 4]);
        let v5 = hex_val(bytes[i + 5]);
        proof {
            assert(t[0] == bytes@[i as int] && t[1] == bytes@[i + 1] && t[2] == bytes@[i + 2]
                && t[3] == bytes@[i + 3] && t[4] == bytes@[i + 4] && t[5] == bytes@[i + 5]);
        }
        if v0 < 0 || v1 < 0 || v2 < 0 || v3 < 0 || v4 < 0 || v5 < 0 {
            proof {
                assert(!spec_all_hex(t));
            }
            return None;
        }
        proof {
            assert forall|k: int| 0 <= k < t.len() implies spec_hex_val(#[trigger] t[k]) != -1 by {
                assert(t[k] == bytes@[i + k]);
            }
        }
        Some(
            (
                (16 * (v0 as u32) + (v1 as u32)) as u8,
                (16 * (v2 as u32) + (v3 as u32)) as u8,
                (16 * (v4 as u32) + (v5 as u32)) as u8,
            ),
        )
    } else if n == 3 {
        let v0 = hex_val(bytes[i]);
        let v1 = hex_val(bytes[i + 1]);
        let v2 = hex_val(bytes[i + 2]);
        proof {
            assert(t[0] == bytes@[i as int] && t[1] == bytes@[i + 1] && t[2] == bytes@[i + 2]);
        }
        if v0 < 0 || v1 < 0 || v2 < 0 {
            proof {
                assert(!spec_all_hex(t));
            }
            return None;
        }
        proof {
            assert forall|k: int| 0 <= k < t.len() implies spec_hex_val(#[trigger] t[k]) != -1 by {
                assert(t[k] == bytes@[i + k]);
            }
        }
        Some(((17 * (v0 as u32)) as u8, (17 * (v1 as u32)) as u8, (17 * (v2 as u32)) as u8))
    } else {
        None
    }
}

/// Whether a character has the Unicode White_Space property, as
/// char::is_whitespace reports it; a function of the character alone.
pub uninterp spec fn spec_is_whitespace(c: char) -> bool;

/// Relies on char::is_whitespace: true exactly for characters with the
/// Unicode White_Space property, which holds of the ASCII space, tab,
/// line feed and carriage return and never of an angle bracket.
#[verifier::external_body]
fn char_is_whitespace(c: char) -> (r: bool)
    ensures
        r == spec_is_whitespace(c),
        c == ' ' || c == '\t' || c == '\n' || c == '\r' ==> r,
        c == '<' ==> !r,
{
    c.is_whitespace()
}

/// Relies on str::from_utf8: decodes exactly the valid UTF-8 byte
/// sequences, to the character sequence they encode.
#[verifier::external_body]
fn utf8_decode(v: &[u8]) -> (r: Option<&str>)
    ensures
        (r is Some) == vstd::utf8::valid_utf8(v@),
        r matches Some(s) ==> s@ == vstd::utf8::decode_utf8(v@),
{
    core::str::from_utf8(v).ok()
}

/// The text after trimming leading whitespace characters.
pub open spec fn spec_trim_start(s: Seq<char>) -> Seq<char>
    decreases s.len(),
{
    if s.len() > 0 && spec_is_whitespace(s[0]) {
        spec_trim_start(s.skip(1))
    } else {
        s
    }
}

/// Whether the four characters at position `i` spell the opening of an
/// svg tag.
pub open spec fn spec_svg_tag_at(s: Seq<char>, i: int) -> bool {
    i + 4 <= s.len() && s[i] == '<' && s[i + 1] == 's' && s[i + 2] == 'v' && s[i + 3] == 'g'
}

/// Whether a text looks like SVG markup: after leading whitespace it
/// opens with an angle bracket and contains the tag "<svg" somewhere.
pub open spec fn spec_svg_text(s: Seq<char>) -> bool {
    let t = spec_trim_start(s);
    t.len() > 0 && t[0] == '<' && (exists|i: int| 0 <= i && spec_svg_tag_at(t, i))
}

/// Whether a text looks like SVG markup.
fn svg_markup_text(s: &str) -> (r: bool)
    ensures
        r == spec_svg_text(s@),
{
    let n = s.unicode_len();
    let mut i: usize = 0;
    proof {
        assert(s@.skip(0) =~= s@);
    }
    while i < n && char_is_whitespace(s.get_char(i))
        invariant
            i <= n,
            n == s@.len(),
            spec_trim_start(s@) == spec_trim_start(s@.skip(i as int)),
        decreases n - i,
    {
        proof {
            assert(s@.skip(i as int).skip(1) =~= s@.skip(i + 1));
        }
        i = i + 1;
    }
    let ghost t = spec_trim_start(s@);
    proof {
        assert(t =~= s@.skip(i as int));
    }
    if i >= n || s.get_char(i) != '<' {
        return false;
    }
    let start = i;
    let mut j: usize = i;
    while n >= 4 && j <= n - 4
        invariant
            start <= j,
            i == start,
            t == s@.skip(start as int),
            start < s@.len(),
            j <= n,
            n == s@.len(),
            forall|k: int| 0 <= k < j - start ==> !spec_svg_tag_at(t, k),
        decreases n - j,
    {
        if s.get_char(j) == '<' && s.get_char(j + 1) == 's' && s.get_char(j + 2) == 'v'
            && s.get_char(j + 3) == 'g' {
            proof {
                assert(spec_svg_tag_at(t, j - start));
            }
            return true;
        }
        proof {
            assert(!spec_svg_tag_at(t, j - start));
        }
        j = j + 1;
    }
    proof {
        assert forall|k: int| 0 <= k implies !spec_svg_tag_at(t, k) by {
            if k + 4 <= t.len() {
                assert(!spec_svg_tag_at(t, k));
            }
        }
    }
    false
}

/// Whether a byte buffer holds SVG markup: it must decode as UTF-8, and
/// the decoded text must open (after leading whitespace) with an angle
/// bracket and contain the tag "<svg" somewhere.
pub fn is_svg_buffer(buffer: &[u8]) -> (r: bool)
    ensures
        r == (vstd::utf8::valid_utf8(buffer@) && spec_svg_text(vstd::utf8::decode_utf8(buffer@))),
{
    match utf8_decode(buffer) {
        Some(s) => svg_markup_text(s),
        None => false,
    }
}

/// The base64 alphabet character of a six-bit value.
pub open spec fn spec_b64_char(v: int) -> char {
    if v < 26 {
        ((65 + v) as u8) as char
    } else if v < 52 {
        ((97 + v - 26) as u8) as char
    } else if v < 62 {
        ((48 + v - 52) as u8) as char
    } else if v == 62 {
        '+'
    } else {
        '/'
    }
}

/// Standard base64 of a byte sequence, with '=' padding.
pub open spec fn spec_base64(s: Seq<u8>) -> Seq<char>
    decreases s.len(),
{
    if s.len() == 0 {
        Seq::empty()
    } else if s.len() == 1 {
        seq![
            spec_b64_char(s[0] as int / 4),
            spec_b64_char((s[0] as int % 4) * 16),
            '=',
            '=',
        ]
    } else if s.len() == 2 {
        seq![
            spec_b64_char(s[0] as int / 4),
            spec_b64_char((s[0] as int % 4) * 16 + s[1] as int / 16),
            spec_b64_char((s[1] as int % 16) * 4),
            '=',
        ]
    } else {
        seq![
            spec_b64_char(s[0] as int / 4),
            spec_b64_char((s[0] as int % 4) * 16 + s[1] as int / 16),
            spec_b64_char((s[1] as int % 16) * 4 + s[2] as int / 64),
            spec_b64_char(s[2] as int % 64),
        ] + spec_base64(s.skip(3))
    }
}

fn b64_char_str(v: u8) -> (r: &'static str)
    requires
        v < 64,
    ensures
        r@ == seq![spec_b64_char(v as int)],
{
    let table = "ABCDEFGHIJKLMNOPQRSTUVWXYZabcdefghijklmnopqrstuvwxyz0123456789+/";
    proof {
        reveal_strlit("ABCDEFGHIJKLMNOPQRSTUVWXYZabcdefghijklmnopqrstuvwxyz0123456789+/");
    }
    let r = table.substring_ascii(v as usize, v as usize + 1);
    proof {
        assert(r@ =~= seq![spec_b64_char(v as int)]);
    }
    r
}

/// Base64-encodes a byte sequence with standard padding.
pub fn encode_base64(input: &[u8]) -> (r: String)
    requires
        input@.len() <= usize::MAX - 4,
    ensures
        r@ == spec_base64(input@),
{
    let mut out = String::new();
    let mut i: usize = 0;
    proof {
        assert(input@.skip(0) =~= input@);
        assert(out@ + spec_base64(input@) =~= spec_base64(input@));
    }
    while i + 3 <= input.len()
        invariant
            i <= input@.len(),
            spec_base64(input@) == out@ + spec_base64(input@.skip(i as int)),
        decreases input@.len() - i,
    {
        let b0 = input[i];
        let b1 = input[i + 1];
        let b2 = input[i + 2];
        out.append(b64_char_str(b0 / 4));
        out.append(b64_char_str((b0 % 4) * 16 + b1 / 16));
        out.append(b64_char_str((b1 % 16) * 4 + b2 / 64));
        out.append(b64_char_str(b2 % 64));
        proof {
            let tail = input@.skip(i as int);
            assert(tail[0] == input@[i as int] && tail[1] == input@[i + 1] && tail[2] == input@[i
                + 2]);
            assert(tail.skip(3) =~= input@.skip(i + 3));
            assert(spec_base64(input@) =~= out@ + spec_base64(input@.skip(i + 3)));
        }
        i = i + 3;
    }
    if i + 2 == input.len() {
        let b0 = input[i];
        let b1 = input[i + 1];
        out.append(b64_char_str(b0 / 4));
        out.append(b64_char_str((b0 % 4) * 16 + b1 / 16));
        out.append(b64_char_str((b1 % 16) * 4));
        out.append("=");
        proof {
            let tail = input@.skip(i as int);
            assert(tail.len() == 2 && tail[0] == input@[i as int] && tail[1] == input@[i + 1]);
            reveal_strlit("=");
            assert(spec_base64(input@) =~= out@);
        }
    } else if i + 1 == input.len() {
        let b0 = input[i];
        out.append(b64_char_str(b0 / 4));
        out.append(b64_char_str((b0 % 4) * 16));
        out.append("=");
        out.append("=");
        proof {
            let tail = input@.skip(i as int);
            assert(tail.len() == 1 && tail[0] == input@[i as int]);
            reveal_strlit("=");
            assert(spec_base64(input@) =~= out@);
        }
    } else {
        proof {
            assert(input@.skip(i as int).len() == 0);
            assert(spec_base64(input@) =~= out@);
        }
    }
    out
}

/// What surrounds one module: whether its four neighbors are dark.
pub struct ModuleContext {
    pub top: bool,
    pub bottom: bool,
    pub left: bool,
    pub right: bool,
}

/// The neighborhood of module (x, y), with off-grid neighbors light.
pub fn module_context(qr: &QrCode, x: i32, y: i32) -> (r: ModuleContext)
    requires
        qr.wf(),
        i32::MIN < x < i32::MAX,
        i32::MIN < y < i32::MAX,
    ensures
        r.top == (0 <= x < qr.spec_side() && 0 <= y - 1 < qr.spec_side() && qr.spec_module(
            x as int,
            y - 1,
        )),
        r.bottom == (0 <= x < qr.spec_side() && 0 <= y + 1 < qr.spec_side() && qr.spec_module(
            x as int,
            y + 1,
        )),
        r.left == (0 <= x - 1 < qr.spec_side() && 0 <= y < qr.spec_side() && qr.spec_module(
            x - 1,
            y as int,
        )),
        r.right == (0 <= x + 1 < qr.spec_side() && 0 <= y < qr.spec_side() && qr.spec_module(
            x + 1,
            y as int,
        )),
{
    ModuleContext {
        top: qr.get_module(x, y - 1),
        bottom: qr.get_module(x, y + 1),
        left: qr.get_module(x - 1, y),
        right: qr.get_module(x + 1, y),
    }
}

/// The path fragment of one module: dark cells paint a unit square at
/// their border-shifted position, separated by single spaces.
pub open spec fn spec_svg_cell(qr: QrCode, border: int, x: int, y: int) -> Seq<char> {
    if qr.spec_module(x, y) {
        (if x == 0 && y == 0 {
            Seq::empty()
        } else {
            " "@
        }) + "M"@ + spec_dec(x + border) + ","@ + spec_dec(y + border) + "h1v1h-1z"@
    } else {
        Seq::empty()
    }
}

/// The path fragments of row `y` from column `x` rightward.
pub open spec fn spec_svg_row(qr: QrCode, border: int, y: int, x: int) -> Seq<char>
    decreases qr.spec_side() - x when x <= qr.spec_side()
{
    if x >= qr.spec_side() {
        Seq::empty()
    } else {
        spec_svg_cell(qr, border, x, y) + spec_svg_row(qr, border, y, x + 1)
    }
}

/// The path fragments of rows `y` downward.
pub open spec fn spec_svg_rows(qr: QrCode, border: int, y: int) -> Seq<char>
    decreases qr.spec_side() - y when y <= qr.spec_side()
{
    if y >= qr.spec_side() {
        Seq::empty()
    } else {
        spec_svg_row(qr, border, y, 0) + spec_svg_rows(qr, border, y + 1)
    }
}

/// The complete SVG document for a symbol with the given border.
pub open spec fn spec_svg_string(qr: QrCode, border: int) -> Seq<char> {
    let dim = qr.spec_side() + 2 * border;
    "<?xml version=\"1.0\" encoding=\"UTF-8\"?>\n"@
        + "<!DOCTYPE svg PUBLIC \"-//W3C//DTD SVG 1.1//EN\" \"http://www.w3.org/Graphics/SVG/1.1/DTD/svg11.dtd\">\n"@
        + "<svg xmlns=\"http://www.w3.org/2000/svg\" version=\"1.1\" viewBox=\"0 0 "@
        + spec_dec(dim) + " "@ + spec_dec(dim) + "\" stroke=\"none\">\n"@
        + "\t<rect width=\"100%\" height=\"100%\" fill=\"#FFFFFF\"/>\n"@ + "\t<path d=\""@
        + spec_svg_rows(qr, border, 0) + "\" fill=\"#000000\"/>\n"@ + "</svg>\n"@
}

/// Renders a symbol as an SVG document: a white background and one black
/// unit-square path per dark module, shifted by `border` quiet-zone
/// modules; always Unix newlines.
pub fn to_svg_string(qr: &QrCode, border: i32) -> (r: String)
    requires
        qr.wf(),
        0 <= border,
        qr.spec_side() + 2 * border <= i32::MAX,
    ensures
        r@ == spec_svg_string(*qr, border as int),
{
    let size = qr.size();
    let dim: u32 = (size + 2 * border) as u32;
    let mut r = String::from_str("<?xml version=\"1.0\" encoding=\"UTF-8\"?>\n");
    r.append(
        "<!DOCTYPE svg PUBLIC \"-//W3C//DTD SVG 1.1//EN\" \"http://www.w3.org/Graphics/SVG/1.1/DTD/svg11.dtd\">\n",
    );
    r.append("<svg xmlns=\"http://www.w3.org/2000/svg\" version=\"1.1\" viewBox=\"0 0 ");
    append_dec(&mut r, dim);
    r.append(" ");
    append_dec(&mut r, dim);
    r.append("\" stroke=\"none\">\n");
    r.append("\t<rect width=\"100%\" height=\"100%\" fill=\"#FFFFFF\"/>\n");
    r.append("\t<path d=\"");
    let ghost head = r@;
    let mut y: i32 = 0;
    while y < size
        invariant
            qr.wf(),
            0 <= y <= qr.spec_side() < 400,
            size == qr.spec_side(),
            0 <= border,
            qr.spec_side() + 2 * border <= i32::MAX,
            head + spec_svg_rows(*qr, border as int, 0) == r@ + spec_svg_rows(
                *qr,
                border as int,
                y as int,
            ),
        decreases size - y,
    {
        let mut x: i32 = 0;
        while x < size
            invariant
                qr.wf(),
                0 <= y < qr.spec_side() < 400,
                0 <= x <= qr.spec_side(),
                size == qr.spec_side(),
                0 <= border,
                qr.spec_side() + 2 * border <= i32::MAX,
                head + spec_svg_rows(*qr, border as int, 0) == r@ + spec_svg_row(
                    *qr,
                    border as int,
                    y as int,
                    x as int,
                ) + spec_svg_rows(*qr, border as int, y + 1),
            decreases size - x,
        {
            if qr.get_module(x, y) {
                let ghost pre = r@;
                if x != 0 || y != 0 {
                    r.append(" ");
                }
                r.append("M");
                append_dec(&mut r, (x + border) as u32);
                r.append(",");
                append_dec(&mut r, (y + border) as u32);
                r.append("h1v1h-1z");
                proof {
                    assert(r@ =~= pre + spec_svg_cell(*qr, border as int, x as int, y as int));
                }
            } else {
                proof {
                    assert(spec_svg_cell(*qr, border as int, x as int, y as int)
                        =~= Seq::<char>::empty());
                }
            }
            proof {
                assert(head + spec_svg_rows(*qr, border as int, 0) =~= r@ + spec_svg_row(
                    *qr,
                    border as int,
                    y as int,
                    x + 1,
                ) + spec_svg_rows(*qr, border as int, y + 1));
            }
            x = x + 1;
        }
        proof {
            assert(spec_svg_row(*qr, border as int, y as int, qr.spec_side())
                =~= Seq::<char>::empty());
            assert(head + spec_svg_rows(*qr, border as int, 0) =~= r@ + spec_svg_rows(
                *qr,
                border as int,
                y + 1,
            ));
        }
        y = y + 1;
    }
    proof {
        assert(spec_svg_rows(*qr, border as int, qr.spec_side()) =~= Seq::<char>::empty());
        assert(r@ =~= head + spec_svg_rows(*qr, border as int, 0));
    }
    r.append("\" fill=\"#000000\"/>\n");
    r.append("</svg>\n");
    proof {
        assert(r@ =~= spec_svg_string(*qr, border as int));
    }
    r
}

} // verus!
