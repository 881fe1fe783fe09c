use vstd::prelude::*;

verus! {

/// Error-correction level of a QR Code symbol, ordered by increasing
/// redundancy (and decreasing usable data capacity).
#[derive(Clone, Copy, Debug, PartialEq, Eq, Structural)]
pub enum QrCodeEcc {
    Low,
    Medium,
    Quartile,
    High,
}

impl QrCodeEcc {
    /// Position in the redundancy order: Low 0, Medium 1, Quartile 2, High 3.
    pub open spec fn spec_ordinal(self) -> int {
        match self {
            QrCodeEcc::Low => 0,
            QrCodeEcc::Medium => 1,
            QrCodeEcc::Quartile => 2,
            QrCodeEcc::High => 3,
        }
    }

    pub fn ordinal(self) -> (r: u8)
        ensures
            r == self.spec_ordinal(),
    {
        match self {
            QrCodeEcc::Low => 0,
            QrCodeEcc::Medium => 1,
            QrCodeEcc::Quartile => 2,
            QrCodeEcc::High => 3,
        }
    }

    /// The two-bit value that stands for this level in the format
    /// information field.
    pub open spec fn spec_format_bits(self) -> int {
        match self {
            QrCodeEcc::Low => 1,
            QrCodeEcc::Medium => 0,
            QrCodeEcc::Quartile => 3,
            QrCodeEcc::High => 2,
        }
    }

    pub fn format_bits(self) -> (r: u8)
        ensures
            r == self.spec_format_bits(),
    {
        match self {
            QrCodeEcc::Low => 1,
            QrCodeEcc::Medium => 0,
            QrCodeEcc::Quartile => 3,
            QrCodeEcc::High => 2,
        }
    }
}

} // verus!
