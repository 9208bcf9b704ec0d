//! The units in which the grid counts: tokens, and bytes of memory, storage
//! and traffic.

use vstd::prelude::*;
use vstd::string::StringExecFns;
use crate::decimal::{decimal_text, push_decimal};

verus! {

/// Amount of the smallest on chain currency unit which equate 1 TFT. In other words, 1 TFT can be
/// split up in this many pieces.
pub const UNITS_PER_TFT: u64 = 10_000_000;

/// Value of 1 KiB.
pub const KIB: u64 = 1_024;

/// Value of 1 MiB.
pub const MIB: u64 = 1_048_576;

/// Value of 1 GiB.
pub const GIB: u64 = 1_073_741_824;

/// Value of 1 TiB.
pub const TIB: u64 = 1_099_511_627_776;

/// A unit for a number of bytes.
#[derive(Clone, Copy, Debug, PartialEq, Eq)]
pub enum SizeUnit {
    B,
    KiB,
    MiB,
    GiB,
    TiB,
}

impl SizeUnit {
    /// The number of bytes that make one of the unit.
    pub open spec fn spec_bytes(self) -> u64 {
        match self {
            SizeUnit::B => 1,
            SizeUnit::KiB => KIB,
            SizeUnit::MiB => MIB,
            SizeUnit::GiB => GIB,
            SizeUnit::TiB => TIB,
        }
    }

    /// The number of bytes that make one of the unit.
    #[verifier::when_used_as_spec(spec_bytes)]
    pub fn bytes(self) -> (bytes: u64)
        ensures
            bytes == self.spec_bytes(),
    {
        match self {
            SizeUnit::B => 1,
            SizeUnit::KiB => KIB,
            SizeUnit::MiB => MIB,
            SizeUnit::GiB => GIB,
            SizeUnit::TiB => TIB,
        }
    }
}

/// The unit in which to give a number of bytes: the largest of which the
/// number holds more than one, and bytes for a number of up to 1 KiB.
pub open spec fn unit_of(value: u64) -> SizeUnit {
    if value > TIB {
        SizeUnit::TiB
    } else if value > GIB {
        SizeUnit::GiB
    } else if value > MIB {
        SizeUnit::MiB
    } else if value > KIB {
        SizeUnit::KiB
    } else {
        SizeUnit::B
    }
}

/// The unit in which to give a number of bytes to a reader.
pub fn size_unit(value: u64) -> (unit: SizeUnit)
    ensures
        unit == unit_of(value),
{
    if value > TIB {
        SizeUnit::TiB
    } else if value > GIB {
        SizeUnit::GiB
    } else if value > MIB {
        SizeUnit::MiB
    } else if value > KIB {
        SizeUnit::KiB
    } else {
        SizeUnit::B
    }
}

/// An amount of tokens, given in the smallest unit, as a reader sees it:
/// the whole tokens, a point, the units beyond the whole tokens, and the
/// name of the token.
pub open spec fn tft_text(amount: u64) -> Seq<char> {
    decimal_text((amount / UNITS_PER_TFT) as nat) + seq!['.'] + decimal_text(
        (amount % UNITS_PER_TFT) as nat,
    ) + seq![' ', 'T', 'F', 'T']
}

/// Format an amount as value in TFT.
pub fn fmt_tft(amount: u64) -> (text: String)
    ensures
        text@ == tft_text(amount),
{
    let mut text = String::new();
    push_decimal(&mut text, amount / UNITS_PER_TFT);
    text.append(".");
    push_decimal(&mut text, amount % UNITS_PER_TFT);
    text.append(" TFT");
    proof {
        reveal_strlit(".");
        reveal_strlit(" TFT");
    }
    text
}

} // verus!
