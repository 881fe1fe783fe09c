use vstd::prelude::*;
use crate::ecc::QrCodeEcc;
use crate::shared::Qr;
use vstd::string::StringSliceAdditionalSpecFns;

verus! {

/// Encoding and output options shared by every payload kind.
#[derive(Debug)]
pub struct SharedArgs {
    /// Border size in modules, 0 to 100.
    pub border: i32,
    /// Requested error-correction level.
    pub ecl: QrCodeEcc,
    /// Optional ceiling on the version, 1 to 40.
    pub max_version: Option<u8>,
    /// Optional forced mask index, 0 to 7.
    pub mask: Option<u8>,
    /// Where to save the symbol.
    pub output: String,
}

impl SharedArgs {
    /// The bounds that the front ends enforce.
    pub open spec fn wf(self) -> bool {
        &&& 0 <= self.border <= 100
        &&& (self.max_version matches Some(v) ==> 1 <= v <= 40)
        &&& (self.mask matches Some(m) ==> m <= 7)
    }
}

/// One payload-generating subcommand.
#[derive(Debug)]
pub enum CliCommand {
    /// Share a wifi network.
    Wifi(crate::shared::WiFi),
    /// Share text.
    Text(crate::shared::Text),
    /// Share an email.
    Mail(crate::shared::Mail),
}

/// The top-level modes of the program.
#[derive(Debug)]
pub enum TopLevelCommand {
    /// Start the graphical front end.
    Gui,
    /// Generate one symbol from arguments.
    Generate(CliCommand),
}

/// The parsed command line.
#[derive(Debug)]
pub struct Cli {
    /// The selected mode.
    pub command: TopLevelCommand,
}

/// Builds the payload string of a subcommand and encodes it into an SVG
/// document under its shared options: the outcome is exactly what
/// encoding that payload string yields; writing the file is the caller's
/// affair.
pub fn handle(cmd: &CliCommand) -> (r: Result<String, crate::qrcode::QrError>)
    requires
        ({
            match cmd {
                CliCommand::Wifi(w) => w.shared.wf() && vstd::utf8::encode_utf8(
                    crate::shared::spec_wifi_str(w),
                ).len() <= usize::MAX / 8,
                CliCommand::Text(t) => t.shared.wf() && vstd::utf8::encode_utf8(t.text@).len()
                    <= usize::MAX / 8,
                CliCommand::Mail(m) => m.shared.wf() && vstd::utf8::encode_utf8(
                    crate::shared::spec_mail_str(m),
                ).len() <= usize::MAX / 8,
            }
        }),
    ensures
        ({
            match cmd {
                CliCommand::Wifi(w) => crate::shared::spec_to_qr_post(
                    vstd::utf8::encode_utf8(crate::shared::spec_wifi_str(w)),
                    w.shared,
                    r,
                ),
                CliCommand::Text(t) => crate::shared::spec_to_qr_post(
                    vstd::utf8::encode_utf8(t.text@),
                    t.shared,
                    r,
                ),
                CliCommand::Mail(m) => crate::shared::spec_to_qr_post(
                    vstd::utf8::encode_utf8(crate::shared::spec_mail_str(m)),
                    m.shared,
                    r,
                ),
            }
        }),
        r matches Err(e) ==> e == crate::qrcode::QrError::DataTooLong,
{
    match cmd {
        CliCommand::Wifi(w) => {
            let data = w.to_str();
            let ds = data.as_str();
            proof {
                assert(ds.spec_bytes() == vstd::utf8::encode_utf8(crate::shared::spec_wifi_str(w)));
            }
            crate::shared::to_qr(ds, &w.shared)
        },
        CliCommand::Text(t) => {
            let data = t.to_str();
            let ds = data.as_str();
            proof {
                assert(ds.spec_bytes() == vstd::utf8::encode_utf8(t.text@));
            }
            crate::shared::to_qr(ds, &t.shared)
        },
        CliCommand::Mail(m) => {
            let data = m.to_str();
            let ds = data.as_str();
            proof {
                assert(ds.spec_bytes() == vstd::utf8::encode_utf8(crate::shared::spec_mail_str(m)));
            }
            crate::shared::to_qr(ds, &m.shared)
        },
    }
}

/// A message from the graphical front end's two buttons.
#[derive(Clone, Copy, Debug, PartialEq, Eq, Structural)]
pub enum Message {
    Increment,
    Decrement,
}

/// The state behind the graphical front end: whether a symbol exists.
#[derive(Debug, PartialEq, Eq, Structural)]
pub struct QrGenerator {
    /// Whether a symbol has been generated.
    pub exist_qr: bool,
}

impl QrGenerator {
    /// Applies one front-end message: Increment records that a symbol
    /// exists, Decrement that none does.
    pub fn update(&mut self, message: Message)
        ensures
            final(self).exist_qr == (message is Increment),
    {
        match message {
            Message::Increment => {
                self.exist_qr = true;
            },
            Message::Decrement => {
                self.exist_qr = false;
            },
        }
    }
}

} // verus!
