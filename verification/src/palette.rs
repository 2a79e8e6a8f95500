//! Colors: which palette entry a record type gets, and the escape sequences
//! that switch the foreground color.

use vstd::prelude::*;
use termion::color::{AnsiValue, Reset};
use crate::text::decimal;

verus! {

/// The palette entry of the name field, whatever the record's type.
pub const NAME_COLOR: u8 = 75;

/// The palette entry for a record type that has no entry of its own.
pub const UNKNOWN_COLOR: u8 = 35;

/// The palette entry for the record type with the given type code. Each
/// type code that is assigned a mnemonic has an entry of its own; every other
/// code shares `UNKNOWN_COLOR`.
pub open spec fn palette_index(code: u16) -> u8 {
    match code {
        1 => 1u8,  // A
        28 => 2u8,  // AAAA
        65305 => 3u8,  // ANAME
        255 => 4u8,  // ANY
        252 => 5u8,  // AXFR
        257 => 6u8,  // CAA
        59 => 7u8,  // CDS
        60 => 8u8,  // CDNSKEY
        62 => 9u8,  // CSYNC
        48 => 10u8,  // DNSKEY
        43 => 11u8,  // DS
        13 => 12u8,  // HINFO
        65 => 13u8,  // HTTPS
        251 => 14u8,  // IXFR
        25 => 15u8,  // KEY
        15 => 38u8,  // MX
        35 => 17u8,  // NAPTR
        2 => 18u8,  // NS
        47 => 19u8,  // NSEC
        50 => 20u8,  // NSEC3
        51 => 21u8,  // NSEC3PARAM
        10 => 22u8,  // NULL
        61 => 23u8,  // OPENPGPKEY
        41 => 24u8,  // OPT
        12 => 25u8,  // PTR
        46 => 26u8,  // RRSIG
        24 => 27u8,  // SIG
        6 => 28u8,  // SOA
        33 => 29u8,  // SRV
        44 => 30u8,  // SSHFP
        64 => 31u8,  // SVCB
        52 => 32u8,  // TLSA
        250 => 33u8,  // TSIG
        16 => 34u8,  // TXT
        0 => 36u8,  // the unspecified type
        5 => 37u8,  // CNAME
        _ => UNKNOWN_COLOR,
    }
}

/// Whether the type code has a palette entry of its own.
pub open spec fn has_own_color(code: u16) -> bool {
    palette_index(code) != UNKNOWN_COLOR
}

/// The escape sequence that selects palette entry `index` as foreground color.
pub open spec fn fg_start(index: u8) -> Seq<char> {
    seq!['\x1b', '[', '3', '8', ';', '5', ';'] + decimal(index as nat) + seq!['m']
}

/// The escape sequence that restores the default foreground color.
pub open spec fn fg_reset() -> Seq<char> {
    seq!['\x1b', '[', '3', '9', 'm']
}

/// The palette entry for a record type, looked up by type code.
pub fn record_color(code: u16) -> (index: u8)
    ensures
        index == palette_index(code),
{
    match code {
        1 => 1,
        28 => 2,
        65305 => 3,
        255 => 4,
        252 => 5,
        257 => 6,
        59 => 7,
        60 => 8,
        62 => 9,
        48 => 10,
        43 => 11,
        13 => 12,
        65 => 13,
        251 => 14,
        25 => 15,
        15 => 38,
        35 => 17,
        2 => 18,
        47 => 19,
        50 => 20,
        51 => 21,
        10 => 22,
        61 => 23,
        41 => 24,
        12 => 25,
        46 => 26,
        24 => 27,
        6 => 28,
        33 => 29,
        44 => 30,
        64 => 31,
        52 => 32,
        250 => 33,
        16 => 34,
        0 => 36,
        5 => 37,
        _ => UNKNOWN_COLOR,
    }
}

/// Two different record types that each have a palette entry of their own
/// never share it.
pub proof fn lemma_own_colors_are_distinct(a: u16, b: u16)
    requires
        has_own_color(a),
        has_own_color(b),
        a != b,
    ensures
        palette_index(a) != palette_index(b),
{
}

/// No record type is shown in the color of the name field.
pub proof fn lemma_name_color_is_reserved(code: u16)
    ensures
        palette_index(code) != NAME_COLOR,
{
}

/// `termion::color::AnsiValue::fg_string`: the control sequence introducer,
/// the parameters `38;5;`, the palette index in decimal and a closing `m`.
#[verifier::external_body]
pub(crate) fn fg_start_sequence(index: u8) -> (sequence: String)
    ensures
        sequence@ == fg_start(index),
{
    AnsiValue(index).fg_string()
}

/// `termion::color::Reset::fg_str`: the fixed sequence that restores the
/// default foreground color.
#[verifier::external_body]
pub(crate) fn fg_reset_sequence() -> (sequence: &'static str)
    ensures
        sequence@ == fg_reset(),
{
    Reset.fg_str()
}

} // verus!
