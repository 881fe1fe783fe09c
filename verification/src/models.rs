use vstd::prelude::*;
use vstd::string::StringSliceAdditionalSpecFns;
use crate::ecc::QrCodeEcc;
use crate::codewords::spec_fits;
use crate::qrcode::{
    encode_segments_advanced, spec_boosted, spec_penalty, spec_symbol_cell, spec_symbol_views,
    spec_text_fits, spec_text_segments, Mask, QrCode, QrError, Version,
};
use crate::segment::QrSegment;
use crate::segment::make_segments;

verus! {

/// How each module (cell) of the symbol is drawn by a renderer.
#[derive(Clone, Copy, Debug, PartialEq, Eq, Structural)]
pub enum ModuleShape {
    Square,
    Dots,
    Gapped,
    Heart,
    Diamond,
    HorizontalBars,
    VerticalBars,
}

/// How the position-detection "eyes" are drawn by a renderer.
#[derive(Clone, Copy, Debug, PartialEq, Eq, Structural)]
pub enum FinderShape {
    Square,
    Circle,
    Rounded,
}

/// Direction of a color gradient applied by a renderer.
#[derive(Clone, Copy, Debug, PartialEq, Eq, Structural)]
pub enum GradientDirection {
    TopToBottom,
    LeftToRight,
    TopLeftToBottomRight,
    BottomLeftToTopRight,
    Radial,
}

/// Output file formats that the front ends can ask for.
#[derive(Clone, Copy, Debug, PartialEq, Eq, Structural)]
pub enum OutputFormat {
    Png,
    Jpg,
    Jpeg,
    Bmp,
    Tiff,
    Gif,
    Ico,
    Webp,
    Svg,
    Eps,
    Pdf,
}

impl Default for ModuleShape {
    fn default() -> (r: Self)
        ensures
            r == ModuleShape::Square,
    {
        ModuleShape::Square
    }
}

impl Default for FinderShape {
    fn default() -> (r: Self)
        ensures
            r == FinderShape::Square,
    {
        FinderShape::Square
    }
}

impl Default for GradientDirection {
    fn default() -> (r: Self)
        ensures
            r == GradientDirection::TopLeftToBottomRight,
    {
        GradientDirection::TopLeftToBottomRight
    }
}

/// Configuration for generating and rendering one symbol.
#[derive(Debug)]
pub struct QrConfig {
    /// Modules of quiet zone around the symbol, 0 to 10.
    pub quiet_zone: u32,
    /// Optional ceiling on the version, 1 to 40.
    pub max_version: Option<u8>,
    /// Requested error-correction level.
    pub ecl: QrCodeEcc,
    /// Optional forced mask index, 0 to 7.
    pub mask: Option<u8>,
    /// Foreground color(s); several make a gradient.
    pub foreground: Vec<String>,
    /// Background color.
    pub background: String,
    /// Gradient direction when several foreground colors are given.
    pub gradient_direction: GradientDirection,
    /// Pixels per module.
    pub ppm: u32,
    /// Whether to boost the error-correction level when it costs nothing.
    pub boost_error_correction: bool,
    /// Module shape.
    pub shape: ModuleShape,
    /// Finder-pattern shape.
    pub finder: FinderShape,
    /// Optional path of an icon to embed.
    pub icon: Option<String>,
    /// Output format.
    pub format: OutputFormat,
}

impl QrConfig {
    /// The bounds that the front ends enforce on the encoding fields.
    pub open spec fn wf(self) -> bool {
        &&& (self.max_version matches Some(v) ==> 1 <= v <= 40)
        &&& (self.mask matches Some(m) ==> m <= 7)
    }
}

impl Default for QrConfig {
    fn default() -> (r: Self)
        ensures
            r.wf(),
            r.quiet_zone == 4,
            r.max_version is None,
            r.ecl == QrCodeEcc::Medium,
            r.mask is None,
            r.foreground@.len() == 1 && r.foreground@[0]@ == "#000000"@,
            r.background@ == "#FFFFFF"@,
            r.gradient_direction == GradientDirection::TopLeftToBottomRight,
            r.ppm == 20,
            r.boost_error_correction,
            r.shape == ModuleShape::Square,
            r.finder == FinderShape::Square,
            r.icon is None,
            r.format == OutputFormat::Png,
    {
        let mut foreground: Vec<String> = Vec::new();
        foreground.push(String::from_str("#000000"));
        QrConfig {
            quiet_zone: 4,
            max_version: None,
            ecl: QrCodeEcc::Medium,
            mask: None,
            foreground,
            background: String::from_str("#FFFFFF"),
            gradient_direction: GradientDirection::TopLeftToBottomRight,
            ppm: 20,
            boost_error_correction: true,
            shape: ModuleShape::Square,
            finder: FinderShape::Square,
            icon: None,
            format: OutputFormat::Png,
        }
    }
}

/// One item that a front end wants encoded: its payload text and its
/// configuration.
pub trait QrItem {
    /// The payload, as the contract sees it.
    spec fn spec_content(&self) -> Seq<char>;

    /// The configuration, as the contract sees it.
    spec fn spec_config(&self) -> &QrConfig;

    /// The payload text to encode.
    fn content(&self) -> (r: String)
        ensures
            r@ == self.spec_content(),
    ;

    /// The configuration to encode and render under.
    fn config(&self) -> (r: &QrConfig)
        ensures
            r == self.spec_config(),
    ;
}

/// The version ceiling a configuration imposes: its maximum version, or
/// forty when none is set.
pub open spec fn spec_config_ceiling(c: QrConfig) -> int {
    match c.max_version {
        Some(v) => v as int,
        None => 40,
    }
}

/// Generates a symbol from an item's payload under its configuration:
/// segments the payload greedily, then encodes it at the configured level
/// with the configured version ceiling, mask and boost choice. It
/// succeeds exactly when some version up to the ceiling holds the
/// payload; the symbol is the one the engine's contract determines, down
/// to every module. Rendering is the callers' affair; they query the
/// returned symbol cell by cell.
pub fn generate_qr<T: QrItem>(item: &T) -> (r: Result<QrCode, QrError>)
    requires
        item.spec_config().wf(),
        vstd::utf8::encode_utf8(item.spec_content()).len() <= usize::MAX / 8,
    ensures
        ({
            let bytes = vstd::utf8::encode_utf8(item.spec_content());
            let config = *item.spec_config();
            let ceil = spec_config_ceiling(config);
            &&& (r is Ok) == (exists|v: int|
                1 <= v <= ceil && spec_text_fits(bytes, config.ecl, v))
            &&& (r matches Err(e2) ==> e2 == QrError::DataTooLong)
            &&& (r matches Ok(qr) ==> exists|segs: Seq<QrSegment>|
                {
                    &&& #[trigger] spec_text_segments(bytes, segs)
                    &&& qr.wf()
                    &&& 1 <= qr.spec_version() <= ceil
                    &&& spec_fits(segs, config.ecl, qr.spec_version())
                    &&& (forall|v: int|
                        1 <= v < qr.spec_version() ==> !spec_fits(segs, config.ecl, v))
                    &&& qr.spec_ecl() == (if config.boost_error_correction {
                        spec_boosted(segs, config.ecl, qr.spec_version())
                    } else {
                        config.ecl
                    })
                    &&& spec_fits(segs, qr.spec_ecl(), qr.spec_version())
                    &&& (config.mask matches Some(m) ==> qr.spec_mask() == m)
                    &&& 0 <= qr.spec_mask() <= 7
                    &&& qr.spec_side() == 4 * qr.spec_version() + 17
                    &&& (forall|x: int, y: int|
                        0 <= x < qr.spec_side() && 0 <= y < qr.spec_side() ==> qr.spec_module(
                            x,
                            y,
                        ) == spec_symbol_cell(
                            segs,
                            qr.spec_version(),
                            qr.spec_ecl(),
                            qr.spec_mask() as u8,
                            x,
                            y,
                        ))
                    &&& (config.mask is None ==> (forall|i: int|
                        0 <= i < 8 ==> spec_penalty(
                            spec_symbol_views(
                                segs,
                                qr.spec_version(),
                                qr.spec_ecl(),
                                qr.spec_mask() as u8,
                            ),
                            qr.spec_side(),
                        ) <= spec_penalty(
                            #[trigger] spec_symbol_views(
                                segs,
                                qr.spec_version(),
                                qr.spec_ecl(),
                                i as u8,
                            ),
                            qr.spec_side(),
                        )))
                    &&& (config.mask is None ==> (forall|i: int|
                        0 <= i < qr.spec_mask() ==> spec_penalty(
                            spec_symbol_views(
                                segs,
                                qr.spec_version(),
                                qr.spec_ecl(),
                                qr.spec_mask() as u8,
                            ),
                            qr.spec_side(),
                        ) < spec_penalty(
                            #[trigger] spec_symbol_views(
                                segs,
                                qr.spec_version(),
                                qr.spec_ecl(),
                                i as u8,
                            ),
                            qr.spec_side(),
                        )))
                })
        }),
{
    let ghost bytes = vstd::utf8::encode_utf8(item.spec_content());
    let ghost ceil = spec_config_ceiling(*item.spec_config());
    let content = item.content();
    let config = item.config();
    let text = content.as_str();
    let segments = make_segments(text);
    proof {
        assert(text.spec_bytes() == bytes);
        assert(spec_text_segments(bytes, segments@));
    }
    let maxver = match config.max_version {
        Some(v) => Version::new(v),
        None => Version::max(),
    };
    let mask = match config.mask {
        Some(m) => Some(Mask::new(m)),
        None => None,
    };
    let r = encode_segments_advanced(
        &segments,
        config.ecl,
        Version::min(),
        maxver,
        mask,
        config.boost_error_correction,
    );
    proof {
        assert forall|v: int| 1 <= v <= ceil implies spec_fits(segments@, config.ecl, v)
            == spec_text_fits(bytes, config.ecl, v) by {
            crate::qrcode::lemma_text_fits_glue(segments@, bytes, config.ecl, v);
        }
        if exists|v: int| 1 <= v <= ceil && spec_fits(segments@, config.ecl, v) {
            let v = choose|v: int| 1 <= v <= ceil && spec_fits(segments@, config.ecl, v);
            assert(spec_text_fits(bytes, config.ecl, v));
        }
        if exists|v: int| 1 <= v <= ceil && spec_text_fits(bytes, config.ecl, v) {
            let v = choose|v: int| 1 <= v <= ceil && spec_text_fits(bytes, config.ecl, v);
            assert(spec_fits(segments@, config.ecl, v));
        }
    }
    r
}

/// Payload of a plain-text (or URL) symbol.
#[derive(Debug)]
pub struct TextQr {
    /// The text to encode; empty when it is to come from elsewhere.
    pub text: Option<String>,
    /// Output file path.
    pub output: String,
    /// Rendering and encoding configuration.
    pub config: QrConfig,
}

impl TextQr {
    /// The payload text: the text itself, or empty when absent.
    pub fn to_text(&self) -> (r: String)
        ensures
            self.text matches Some(t) ==> r@ == t@,
            self.text is None ==> r@ == Seq::<char>::empty(),
    {
        match &self.text {
            Some(t) => t.clone(),
            None => String::new(),
        }
    }
}

impl QrItem for TextQr {
    open spec fn spec_content(&self) -> Seq<char> {
        match self.text {
            Some(t) => t@,
            None => Seq::empty(),
        }
    }

    open spec fn spec_config(&self) -> &QrConfig {
        &self.config
    }

    fn content(&self) -> (r: String) {
        self.to_text()
    }

    fn config(&self) -> (r: &QrConfig) {
        &self.config
    }
}

/// Whether a byte stays bare in percent-encoding: ASCII alphanumerics
/// and - _ . ~ only.
pub open spec fn spec_url_unreserved(b: u8) -> bool {
    (48 <= b <= 57) || (65 <= b <= 90) || (97 <= b <= 122) || b == 45 || b == 95 || b == 46 || b
        == 126
}

/// The uppercase hex digit of a value below sixteen.
pub open spec fn spec_hex_upper(n: int) -> char {
    if n < 10 {
        (48 + n) as char
    } else {
        (55 + n) as char
    }
}

/// Percent-encoding of a byte sequence: unreserved bytes stay, every
/// other byte becomes a percent sign and two uppercase hex digits.
pub open spec fn spec_url_encoded(s: Seq<u8>) -> Seq<char>
    decreases s.len(),
{
    if s.len() == 0 {
        Seq::empty()
    } else if spec_url_unreserved(s[0]) {
        seq![s[0] as char] + spec_url_encoded(s.skip(1))
    } else {
        seq!['%', spec_hex_upper(s[0] as int / 16), spec_hex_upper(s[0] as int % 16)]
            + spec_url_encoded(s.skip(1))
    }
}

/// Relies on urlencoding::encode: percent-encodes every byte of the
/// UTF-8 form except ASCII alphanumerics and - _ . ~, with uppercase hex
/// digits; the result depends on the text alone.
#[verifier::external_body]
fn url_encode(s: &str) -> (r: String)
    ensures
        r@ == spec_url_encoded(s.spec_bytes()),
{
    urlencoding::encode(s).into_owned()
}

/// One optional query field appended to a mailto URI under construction:
/// the first present field follows a question mark, later ones an
/// ampersand.
pub open spec fn spec_mail_field(
    acc: Seq<char>,
    any: bool,
    name: Seq<char>,
    val: Option<String>,
) -> (Seq<char>, bool) {
    match val {
        Some(v) => (
            acc + (if any {
                "&"@
            } else {
                "?"@
            }) + name + spec_url_encoded(vstd::utf8::encode_utf8(v@)),
            true,
        ),
        None => (acc, any),
    }
}

/// The payload characters that an email item renders to: a mailto URI
/// with percent-encoded subject, body, CC and BCC query fields.
pub open spec fn spec_email_content(e: &EmailQr) -> Seq<char> {
    let base = "mailto:"@ + e.to@;
    let s1 = spec_mail_field(base, false, "subject="@, e.subject);
    let s2 = spec_mail_field(s1.0, s1.1, "body="@, e.body);
    let s3 = spec_mail_field(s2.0, s2.1, "cc="@, e.cc);
    let s4 = spec_mail_field(s3.0, s3.1, "bcc="@, e.bcc);
    s4.0
}

/// Payload of an email symbol.
#[derive(Debug)]
pub struct EmailQr {
    /// Recipient address.
    pub to: String,
    /// Optional subject.
    pub subject: Option<String>,
    /// Optional body.
    pub body: Option<String>,
    /// Optional CC recipient.
    pub cc: Option<String>,
    /// Optional BCC recipient.
    pub bcc: Option<String>,
    /// Rendering and encoding configuration.
    pub config: QrConfig,
}

impl EmailQr {
    /// The mailto URI that this item encodes.
    pub fn to_text(&self) -> (r: String)
        ensures
            r@ == spec_email_content(self),
    {
        let mut r = String::from_str("mailto:");
        r.append(self.to.as_str());
        let mut any = false;
        let ghost base = "mailto:"@ + self.to@;
        let ghost s1 = spec_mail_field(base, false, "subject="@, self.subject);
        let ghost s2 = spec_mail_field(s1.0, s1.1, "body="@, self.body);
        let ghost s3 = spec_mail_field(s2.0, s2.1, "cc="@, self.cc);
        let ghost s4 = spec_mail_field(s3.0, s3.1, "bcc="@, self.bcc);
        if let Some(v) = &self.subject {
            r.append(if any { "&" } else { "?" });
            r.append("subject=");
            r.append(url_encode(v.as_str()).as_str());
            any = true;
        }
        proof {
            assert(r@ =~= s1.0 && any == s1.1);
        }
        if let Some(v) = &self.body {
            r.append(if any { "&" } else { "?" });
            r.append("body=");
            r.append(url_encode(v.as_str()).as_str());
            any = true;
        }
        proof {
            assert(r@ =~= s2.0 && any == s2.1);
        }
        if let Some(v) = &self.cc {
            r.append(if any { "&" } else { "?" });
            r.append("cc=");
            r.append(url_encode(v.as_str()).as_str());
            any = true;
        }
        proof {
            assert(r@ =~= s3.0 && any == s3.1);
        }
        if let Some(v) = &self.bcc {
            r.append(if any { "&" } else { "?" });
            r.append("bcc=");
            r.append(url_encode(v.as_str()).as_str());
            any = true;
        }
        proof {
            assert(r@ =~= s4.0);
        }
        r
    }
}

impl QrItem for EmailQr {
    open spec fn spec_content(&self) -> Seq<char> {
        spec_email_content(self)
    }

    open spec fn spec_config(&self) -> &QrConfig {
        &self.config
    }

    fn content(&self) -> (r: String) {
        self.to_text()
    }

    fn config(&self) -> (r: &QrConfig) {
        &self.config
    }
}

/// Security mode of a wifi network.
#[derive(Clone, Copy, Debug, PartialEq, Eq, Structural)]
pub enum WifiSecurity {
    WPA,
    WEP,
    NoPass,
}

impl WifiSecurity {
    /// The tag used in the wifi payload string.
    pub open spec fn spec_tag(self) -> Seq<char> {
        match self {
            WifiSecurity::WPA => "WPA"@,
            WifiSecurity::WEP => "WEP"@,
            WifiSecurity::NoPass => "nopass"@,
        }
    }
}

/// Payload of a wifi-network symbol.
#[derive(Debug)]
pub struct WifiQr {
    /// Network name.
    pub ssid: String,
    /// Security mode.
    pub security: WifiSecurity,
    /// Password, where the mode calls for one.
    pub password: Option<String>,
    /// Whether the network is hidden.
    pub hidden: bool,
    /// Rendering and encoding configuration.
    pub config: QrConfig,
}

/// The payload characters of a wifi item:
/// WIFI:T:security;S:ssid;P:password;H:hidden;;
pub open spec fn spec_wifi_content(w: &WifiQr) -> Seq<char> {
    let pwd: Seq<char> = match w.password {
        Some(p) => p@,
        None => Seq::empty(),
    };
    let hidden: Seq<char> = if w.hidden {
        "true"@
    } else {
        "false"@
    };
    "WIFI:T:"@ + w.security.spec_tag() + ";S:"@ + w.ssid@ + ";P:"@ + pwd + ";H:"@ + hidden + ";;"@
}

impl WifiQr {
    /// The wifi payload string that this item encodes.
    pub fn to_text(&self) -> (r: String)
        ensures
            r@ == spec_wifi_content(self),
    {
        let mut r = String::from_str("WIFI:T:");
        match self.security {
            WifiSecurity::WPA => r.append("WPA"),
            WifiSecurity::WEP => r.append("WEP"),
            WifiSecurity::NoPass => r.append("nopass"),
        }
        r.append(";S:");
        r.append(self.ssid.as_str());
        r.append(";P:");
        if let Some(p) = &self.password {
            r.append(p.as_str());
        }
        r.append(";H:");
        if self.hidden {
            r.append("true");
        } else {
            r.append("false");
        }
        r.append(";;");
        proof {
            assert(r@ =~= spec_wifi_content(self));
        }
        r
    }
}

impl QrItem for WifiQr {
    open spec fn spec_content(&self) -> Seq<char> {
        spec_wifi_content(self)
    }

    open spec fn spec_config(&self) -> &QrConfig {
        &self.config
    }

    fn content(&self) -> (r: String) {
        self.to_text()
    }

    fn config(&self) -> (r: &QrConfig) {
        &self.config
    }
}

/// The payload kinds a front end can ask to encode.
#[derive(Debug)]
pub enum QrData {
    /// Plain text, recommended for URLs and other text data.
    Text(TextQr),
    /// Wifi network configuration.
    Wifi(WifiQr),
    /// An email.
    Email(EmailQr),
}

impl QrItem for QrData {
    open spec fn spec_content(&self) -> Seq<char> {
        match self {
            QrData::Text(t) => t.spec_content(),
            QrData::Wifi(w) => w.spec_content(),
            QrData::Email(e) => e.spec_content(),
        }
    }

    open spec fn spec_config(&self) -> &QrConfig {
        match self {
            QrData::Text(t) => &t.config,
            QrData::Wifi(w) => &w.config,
            QrData::Email(e) => &e.config,
        }
    }

    fn content(&self) -> (r: String) {
        match self {
            QrData::Text(t) => t.content(),
            QrData::Wifi(w) => w.content(),
            QrData::Email(e) => e.content(),
        }
    }

    fn config(&self) -> (r: &QrConfig) {
        match self {
            QrData::Text(t) => t.config(),
            QrData::Wifi(w) => w.config(),
            QrData::Email(e) => e.config(),
        }
    }
}

} // verus!
