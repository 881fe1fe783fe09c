use qrosity::cli::{handle, CliCommand, Message, QrGenerator, SharedArgs};
use qrosity::ecc::QrCodeEcc;
use qrosity::models::{EmailQr, QrConfig, QrData, QrItem, TextQr, WifiQr, WifiSecurity};
use qrosity::models::generate_qr;
use qrosity::render::{encode_base64, is_svg_buffer, module_context, parse_hex_color, to_svg_string};
use qrosity::segment::make_segments;
use qrosity::shared::{to_qr, validate_email, verify_url, Mail, Qr, Text, Web, WiFi};
use qrosity::qrcode::{encode_segments_advanced, Version};

fn shared_args() -> SharedArgs {
    SharedArgs {
        border: 4,
        ecl: QrCodeEcc::Medium,
        max_version: None,
        mask: None,
        output: String::from("out"),
    }
}

#[test]
fn parse_hex_color_accepts_six_and_three_digits() {
    assert_eq!(parse_hex_color("#0080ff"), Some((0, 128, 255)));
    assert_eq!(parse_hex_color("0080FF"), Some((0, 128, 255)));
    assert_eq!(parse_hex_color("#fff"), Some((255, 255, 255)));
    assert_eq!(parse_hex_color("#a1b"), Some((170, 17, 187)));
    assert_eq!(parse_hex_color("#12345"), None);
    assert_eq!(parse_hex_color("#12345g"), None);
    assert_eq!(parse_hex_color(""), None);
}

#[test]
fn is_svg_buffer_detects_markup() {
    assert!(is_svg_buffer(b"  <svg width=\"5\"/>"));
    assert!(is_svg_buffer(b"<?xml version=\"1.0\"?><svg>"));
    assert!(!is_svg_buffer(b"plain text"));
    assert!(!is_svg_buffer(b"  hello <svg"));
    assert!(!is_svg_buffer(b""));
    // a buffer that is not valid UTF-8 is never SVG, whatever its bytes
    assert!(!is_svg_buffer(b"<svg \xFF"));
    // trimming covers all Unicode whitespace: vertical tab, no-break space
    assert!(is_svg_buffer("\u{000B}<svg>".as_bytes()));
    assert!(is_svg_buffer("\u{00A0}<svg/>".as_bytes()));
}

#[test]
fn base64_matches_reference_vectors() {
    assert_eq!(encode_base64(b""), "");
    assert_eq!(encode_base64(b"M"), "TQ==");
    assert_eq!(encode_base64(b"Ma"), "TWE=");
    assert_eq!(encode_base64(b"Man"), "TWFu");
    assert_eq!(encode_base64(b"hello world"), "aGVsbG8gd29ybGQ=");
}

#[test]
fn svg_string_paints_every_dark_module() {
    let segs = make_segments("HI");
    let qr = encode_segments_advanced(
        &segs,
        QrCodeEcc::Medium,
        Version::min(),
        Version::max(),
        None,
        false,
    )
    .unwrap();
    let svg = to_svg_string(&qr, 4);
    assert!(svg.starts_with("<?xml version=\"1.0\" encoding=\"UTF-8\"?>\n"));
    assert!(svg.ends_with("</svg>\n"));
    assert!(svg.contains("viewBox=\"0 0 29 29\""));
    // the top-left finder corner, shifted by the border
    assert!(svg.contains("M4,4h1v1h-1z"));
    let darks = (0..qr.size())
        .flat_map(|y| (0..qr.size()).map(move |x| (x, y)))
        .filter(|&(x, y)| qr.get_module(x, y))
        .count();
    assert_eq!(svg.matches("h1v1h-1z").count(), darks);
}

#[test]
fn module_context_reports_neighbors() {
    let segs = make_segments("HI");
    let qr = encode_segments_advanced(
        &segs,
        QrCodeEcc::Medium,
        Version::min(),
        Version::max(),
        None,
        false,
    )
    .unwrap();
    let ctx = module_context(&qr, 0, 0);
    assert!(!ctx.top);
    assert!(!ctx.left);
    assert_eq!(ctx.right, qr.get_module(1, 0));
    assert_eq!(ctx.bottom, qr.get_module(0, 1));
}

#[test]
fn validate_email_accepts_addresses() {
    assert!(validate_email("user@example.com").is_ok());
    assert_eq!(validate_email("user@example.com").unwrap(), "user@example.com");
    assert!(validate_email("not an email").is_err());
    assert!(validate_email("a@b").is_err());
}

#[test]
fn verify_url_accepts_http_links() {
    assert!(verify_url("https://example.com/path?q=1").is_ok());
    assert!(verify_url("http://example.com").is_ok());
    assert!(verify_url("ftp://example.com").is_err());
}

#[test]
fn mail_payload_string() {
    let m = Mail {
        email: String::from("a@b.com"),
        subject: Some(String::from("Hi")),
        body: Some(String::from("There")),
        shared: shared_args(),
    };
    assert_eq!(m.to_str(), "mailto:a@b.com?subject=Hi&body=There");
    let m2 = Mail {
        email: String::from("a@b.com"),
        subject: None,
        body: None,
        shared: shared_args(),
    };
    assert_eq!(m2.to_str(), "mailto:a@b.com");
}

#[test]
fn wifi_payload_string() {
    let w = WiFi {
        ssid: String::from("net"),
        encryption: String::from("WPA"),
        password: Some(String::from("pw")),
        hidden: false,
        shared: shared_args(),
    };
    assert_eq!(w.to_str(), "WIFI:S:net;T:WPA;P:pw;H:false;");
    let open_net = WiFi {
        ssid: String::from("net"),
        encryption: String::from("NONE"),
        password: None,
        hidden: true,
        shared: shared_args(),
    };
    assert_eq!(open_net.to_str(), "WIFI:S:net;T:NONE;H:true;");
}

#[test]
fn mail_body_without_subject_keeps_ampersand() {
    // the body field is always introduced by an ampersand, even when no
    // subject precedes it
    let m = Mail {
        email: String::from("a@b.com"),
        subject: None,
        body: Some(String::from("B")),
        shared: shared_args(),
    };
    assert_eq!(m.to_str(), "mailto:a@b.com&body=B");
}

#[test]
fn to_qr_accepts_an_empty_payload() {
    let svg = to_qr("", &shared_args()).unwrap();
    assert!(svg.contains("viewBox=\"0 0 29 29\""));
}

#[test]
fn text_and_web_payload_strings() {
    let t = Text { text: String::from("hello"), shared: shared_args() };
    assert_eq!(t.to_str(), "hello");
    let w = Web { url: String::from("https://example.com"), shared: shared_args() };
    assert_eq!(w.to_str(), "https://example.com");
}

#[test]
fn email_item_percent_encodes_fields() {
    let e = EmailQr {
        to: String::from("a@b.com"),
        subject: Some(String::from("Hello World")),
        body: None,
        cc: None,
        bcc: Some(String::from("c@d.com")),
        config: QrConfig::default(),
    };
    assert_eq!(e.to_text(), "mailto:a@b.com?subject=Hello%20World&bcc=c%40d.com");
    let plain = EmailQr {
        to: String::from("a@b.com"),
        subject: None,
        body: None,
        cc: None,
        bcc: None,
        config: QrConfig::default(),
    };
    assert_eq!(plain.to_text(), "mailto:a@b.com");
}

#[test]
fn wifi_item_payload_string() {
    let w = WifiQr {
        ssid: String::from("net"),
        security: WifiSecurity::NoPass,
        password: None,
        hidden: false,
        config: QrConfig::default(),
    };
    assert_eq!(w.to_text(), "WIFI:T:nopass;S:net;P:;H:false;;");
}

#[test]
fn generate_qr_encodes_an_item() {
    let item = TextQr {
        text: Some(String::from("HELLO WORLD")),
        output: String::from("out"),
        config: QrConfig::default(),
    };
    let qr = generate_qr(&item).unwrap();
    assert_eq!(qr.version().value(), 1);
    // boost is on by default and upgrades Medium for this payload
    assert!(qr.error_correction_level().ordinal() >= QrCodeEcc::Medium.ordinal());
}

#[test]
fn generate_qr_respects_forced_mask() {
    let mut config = QrConfig::default();
    config.mask = Some(5);
    let item = QrData::Text(TextQr {
        text: Some(String::from("abc")),
        output: String::from("out"),
        config,
    });
    let qr = generate_qr(&item).unwrap();
    assert_eq!(qr.mask().value(), 5);
    assert_eq!(item.config().mask, Some(5));
    assert_eq!(item.content(), "abc");
}

#[test]
fn to_qr_renders_svg() {
    let svg = to_qr("hello", &shared_args()).unwrap();
    assert!(svg.starts_with("<?xml"));
    assert!(svg.contains("<path d=\""));
}

#[test]
fn handle_runs_the_text_subcommand() {
    let cmd = CliCommand::Text(Text { text: String::from("hi"), shared: shared_args() });
    let svg = handle(&cmd).unwrap();
    assert!(svg.starts_with("<?xml"));
}

#[test]
fn qr_generator_update_tracks_messages() {
    let mut g = QrGenerator { exist_qr: false };
    g.update(Message::Increment);
    assert!(g.exist_qr);
    g.update(Message::Decrement);
    assert!(!g.exist_qr);
}

#[test]
fn config_default_matches_documented_values() {
    let c = QrConfig::default();
    assert_eq!(c.quiet_zone, 4);
    assert_eq!(c.ecl, QrCodeEcc::Medium);
    assert_eq!(c.ppm, 20);
    assert!(c.boost_error_correction);
    assert_eq!(c.max_version, None);
    assert_eq!(c.mask, None);
}
