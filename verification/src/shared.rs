use vstd::prelude::*;
use crate::cli::SharedArgs;
use crate::ecc::QrCodeEcc;
use crate::codewords::spec_fits;
use crate::qrcode::{
    encode_segments_advanced, spec_penalty, spec_symbol_cell, spec_symbol_views, spec_text_fits,
    spec_text_segments, Mask, QrCode, QrError, Version,
};
use crate::render::{spec_svg_string, to_svg_string};
use crate::segment::QrSegment;
use crate::segment::make_segments;
use vstd::string::StringSliceAdditionalSpecFns;

verus! {

/// A payload kind that can be turned into the string to encode.
pub trait Qr {
    /// The payload string, as the contract sees it.
    spec fn spec_str(&self) -> Seq<char>;

    /// The payload string to encode.
    fn to_str(&self) -> (r: String)
        ensures
            r@ == self.spec_str(),
    ;
}

/// A plain text payload.
#[derive(Debug)]
pub struct Text {
    /// Text to encode in the symbol.
    pub text: String,
    /// Encoding and output options.
    pub shared: SharedArgs,
}

impl Qr for Text {
    open spec fn spec_str(&self) -> Seq<char> {
        self.text@
    }

    fn to_str(&self) -> (r: String) {
        self.text.clone()
    }
}

/// Whether the fixed URL pattern `https?://[^\s/?#]+(?:/[^\s?#]*)?`
/// `(?:\?[^\s#]*)?(?:#[^\s]*)?` matches somewhere in the text; the result
/// depends on the text alone.
pub uninterp spec fn spec_url_like(s: Seq<char>) -> bool;

/// Relies on regex::Regex::new and Regex::is_match with the fixed URL
/// pattern above, which compiles; whether it matches is a function of the
/// text alone.
#[verifier::external_body]
fn url_matches(text: &str) -> (r: bool)
    ensures
        r == spec_url_like(text@),
{
    match regex::Regex::new(r"https?://[^\s/?#]+(?:/[^\s?#]*)?(?:\?[^\s#]*)?(?:#[^\s]*)?") {
        Ok(re) => re.is_match(text),
        Err(_) => false,
    }
}

/// Accepts a URL exactly when the fixed URL pattern matches it; returns
/// the URL unchanged on success.
pub fn verify_url(url: &str) -> (r: Result<String, String>)
    ensures
        (r is Ok) == spec_url_like(url@),
        r matches Ok(s) ==> s@ == url@,
{
    if url_matches(url) {
        Ok(String::from_str(url))
    } else {
        Err(String::from_str("Invalid URL format"))
    }
}

/// A web address payload.
#[derive(Debug)]
pub struct Web {
    /// The URL to encode.
    pub url: String,
    /// Encoding and output options.
    pub shared: SharedArgs,
}

impl Web {
    /// The payload string: the URL itself.
    pub fn to_str(&self) -> (r: String)
        ensures
            r@ == self.url@,
    {
        self.url.clone()
    }
}

impl Qr for Web {
    open spec fn spec_str(&self) -> Seq<char> {
        self.url@
    }

    fn to_str(&self) -> (r: String) {
        self.url.clone()
    }
}

/// Whether the fixed address pattern `^[\w\-\.]+@([\w-]+\.)+[\w-]{2,}$`
/// matches the text; the result depends on the text alone.
pub uninterp spec fn spec_email_like(s: Seq<char>) -> bool;

/// Relies on regex::Regex::new and Regex::is_match with the fixed address
/// pattern above, which compiles; whether it matches is a function of the
/// text alone.
#[verifier::external_body]
fn email_matches(text: &str) -> (r: bool)
    ensures
        r == spec_email_like(text@),
{
    match regex::Regex::new(r"^[\w\-\.]+@([\w-]+\.)+[\w-]{2,}$") {
        Ok(re) => re.is_match(text),
        Err(_) => false,
    }
}

/// Accepts an email address exactly when the fixed address pattern
/// matches it; returns the address unchanged on success.
pub fn validate_email(email: &str) -> (r: Result<String, String>)
    ensures
        (r is Ok) == spec_email_like(email@),
        r matches Ok(s) ==> s@ == email@,
{
    if email_matches(email) {
        Ok(String::from_str(email))
    } else {
        Err(String::from_str("Invalid email format"))
    }
}

/// An email payload: a mailto URI from address, subject and body.
#[derive(Debug)]
pub struct Mail {
    /// Email address.
    pub email: String,
    /// Subject of the email.
    pub subject: Option<String>,
    /// Body of the email.
    pub body: Option<String>,
    /// Encoding and output options.
    pub shared: SharedArgs,
}

/// The mailto URI of a mail payload: address, then a subject query field
/// and a body query field where present.
pub open spec fn spec_mail_str(m: &Mail) -> Seq<char> {
    let s1: Seq<char> = match m.subject {
        Some(s) => "?subject="@ + s@,
        None => Seq::empty(),
    };
    let s2: Seq<char> = match m.body {
        Some(b) => "&body="@ + b@,
        None => Seq::empty(),
    };
    "mailto:"@ + m.email@ + s1 + s2
}

impl Qr for Mail {
    open spec fn spec_str(&self) -> Seq<char> {
        spec_mail_str(self)
    }

    fn to_str(&self) -> (r: String) {
        let mut r = String::from_str("mailto:");
        r.append(self.email.as_str());
        if let Some(s) = &self.subject {
            r.append("?subject=");
            r.append(s.as_str());
        }
        if let Some(b) = &self.body {
            r.append("&body=");
            r.append(b.as_str());
        }
        proof {
            assert(r@ =~= spec_mail_str(self));
        }
        r
    }
}

/// A wifi network payload.
#[derive(Debug)]
pub struct WiFi {
    /// Network name.
    pub ssid: String,
    /// Network authentication kind: WEP, WPA, WPA3 or NONE.
    pub encryption: String,
    /// Network password; required unless the kind is NONE.
    pub password: Option<String>,
    /// Whether the network is hidden.
    pub hidden: bool,
    /// Encoding and output options.
    pub shared: SharedArgs,
}

/// The wifi payload string: an open network omits the password field.
pub open spec fn spec_wifi_str(w: &WiFi) -> Seq<char> {
    let hidden: Seq<char> = if w.hidden {
        "true"@
    } else {
        "false"@
    };
    if w.encryption@ == "NONE"@ {
        "WIFI:S:"@ + w.ssid@ + ";T:"@ + w.encryption@ + ";H:"@ + hidden + ";"@
    } else {
        "WIFI:S:"@ + w.ssid@ + ";T:"@ + w.encryption@ + ";P:"@ + (match w.password {
            Some(p) => p@,
            None => Seq::empty(),
        }) + ";H:"@ + hidden + ";"@
    }
}

impl Qr for WiFi {
    open spec fn spec_str(&self) -> Seq<char> {
        spec_wifi_str(self)
    }

    fn to_str(&self) -> (r: String) {
        let mut r = String::from_str("WIFI:S:");
        r.append(self.ssid.as_str());
        r.append(";T:");
        r.append(self.encryption.as_str());
        let none_tag = String::from_str("NONE");
        if !(self.encryption == none_tag) {
            r.append(";P:");
            if let Some(p) = &self.password {
                r.append(p.as_str());
            }
        }
        r.append(";H:");
        if self.hidden {
            r.append("true");
        } else {
            r.append("false");
        }
        r.append(";");
        proof {
            assert(r@ =~= spec_wifi_str(self));
        }
        r
    }
}

/// The version ceiling the shared options impose: the maximum version, or
/// forty when none is set.
pub open spec fn spec_args_ceiling(a: SharedArgs) -> int {
    match a.max_version {
        Some(v) => v as int,
        None => 40,
    }
}

/// What encoding a payload to SVG returns: success exactly when some
/// version up to the ceiling holds the payload at the requested level
/// (without boosting); on success the document is the SVG of the symbol
/// that the engine's contract determines, with the requested border.
pub open spec fn spec_to_qr_post(
    bytes: Seq<u8>,
    args: SharedArgs,
    r: Result<String, QrError>,
) -> bool {
    let ceil = spec_args_ceiling(args);
    &&& (r is Ok) == (exists|v: int| 1 <= v <= ceil && spec_text_fits(bytes, args.ecl, v))
    &&& (r matches Err(e) ==> e == QrError::DataTooLong)
    &&& (r matches Ok(s) ==> (exists|segs: Seq<QrSegment>, qr: QrCode|
        #![trigger spec_text_segments(bytes, segs), qr.wf()]
        {
            &&& spec_text_segments(bytes, segs)
            &&& qr.wf()
            &&& 1 <= qr.spec_version() <= ceil
            &&& spec_fits(segs, args.ecl, qr.spec_version())
            &&& (forall|v: int| 1 <= v < qr.spec_version() ==> !spec_fits(segs, args.ecl, v))
            &&& qr.spec_ecl() == args.ecl
            &&& (args.mask matches Some(m) ==> qr.spec_mask() == m)
            &&& 0 <= qr.spec_mask() <= 7
            &&& qr.spec_side() == 4 * qr.spec_version() + 17
            &&& (forall|x: int, y: int|
                0 <= x < qr.spec_side() && 0 <= y < qr.spec_side() ==> qr.spec_module(x, y)
                    == spec_symbol_cell(
                    segs,
                    qr.spec_version(),
                    args.ecl,
                    qr.spec_mask() as u8,
                    x,
                    y,
                ))
            &&& (args.mask is None ==> (forall|i: int|
                0 <= i < 8 ==> spec_penalty(
                    spec_symbol_views(segs, qr.spec_version(), args.ecl, qr.spec_mask() as u8),
                    qr.spec_side(),
                ) <= spec_penalty(
                    #[trigger] spec_symbol_views(segs, qr.spec_version(), args.ecl, i as u8),
                    qr.spec_side(),
                )))
            &&& (args.mask is None ==> (forall|i: int|
                0 <= i < qr.spec_mask() ==> spec_penalty(
                    spec_symbol_views(segs, qr.spec_version(), args.ecl, qr.spec_mask() as u8),
                    qr.spec_side(),
                ) < spec_penalty(
                    #[trigger] spec_symbol_views(segs, qr.spec_version(), args.ecl, i as u8),
                    qr.spec_side(),
                )))
            &&& s@ == spec_svg_string(qr, args.border as int)
        }))
}

/// Encodes a payload string under the shared options and renders it as an
/// SVG document; the caller decides where the document goes.
pub fn to_qr(data: &str, args: &SharedArgs) -> (r: Result<String, QrError>)
    requires
        args.wf(),
        data.spec_bytes().len() <= usize::MAX / 8,
    ensures
        spec_to_qr_post(data.spec_bytes(), *args, r),
{
    let ghost bytes = data.spec_bytes();
    let ghost ceil = spec_args_ceiling(*args);
    let segments = make_segments(data);
    proof {
        assert(spec_text_segments(bytes, segments@));
    }
    let maxver = match args.max_version {
        Some(v) => Version::new(v),
        None => Version::max(),
    };
    let mask = match args.mask {
        Some(m) => Some(Mask::new(m)),
        None => None,
    };
    let enc = encode_segments_advanced(
        &segments,
        args.ecl,
        Version::min(),
        maxver,
        mask,
        false,
    );
    proof {
        assert forall|v: int| 1 <= v <= ceil implies spec_fits(segments@, args.ecl, v)
            == spec_text_fits(bytes, args.ecl, v) by {
            crate::qrcode::lemma_text_fits_glue(segments@, bytes, args.ecl, v);
        }
        if exists|v: int| 1 <= v <= ceil && spec_fits(segments@, args.ecl, v) {
            let v = choose|v: int| 1 <= v <= ceil && spec_fits(segments@, args.ecl, v);
            assert(spec_text_fits(bytes, args.ecl, v));
        }
        if exists|v: int| 1 <= v <= ceil && spec_text_fits(bytes, args.ecl, v) {
            let v = choose|v: int| 1 <= v <= ceil && spec_text_fits(bytes, args.ecl, v);
            assert(spec_fits(segments@, args.ecl, v));
        }
    }
    let qr = match enc {
        Ok(qr) => qr,
        Err(e) => {
            return Err(e);
        },
    };
    let svg = to_svg_string(&qr, args.border);
    let r = Ok(svg);
    proof {
        assert(spec_text_segments(bytes, segments@) && qr.wf());
        assert(spec_to_qr_post(bytes, *args, r));
    }
    r
}

} // verus!
