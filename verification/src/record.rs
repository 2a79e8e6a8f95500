//! The resource record as the formatter reads it.

use vstd::prelude::*;
use hickory_client::rr::RecordType;

verus! {

/// One resource record of a DNS answer, reduced to what a rendered line shows.
#[derive(Clone, Debug)]
pub struct ResourceRecord {
    /// The record's type, as the 16-bit type code that DNS messages carry.
    pub record_type: u16,
    /// The owner name, in presentation form.
    pub name: String,
    /// The time to live, in seconds.
    pub ttl: u32,
    /// The record data in presentation form, where the record has any.
    pub payload: Option<String>,
}

impl ResourceRecord {
    pub fn new(record_type: u16, name: String, ttl: u32, payload: Option<String>) -> (record: Self)
        ensures
            record.record_type == record_type,
            record.name == name,
            record.ttl == ttl,
            record.payload == payload,
    {
        Self { record_type, name, ttl, payload }
    }

    /// The text of the payload field: the record data, or nothing.
    pub open spec fn payload_text(&self) -> Seq<char> {
        match self.payload {
            Some(data) => data@,
            None => Seq::empty(),
        }
    }
}

/// The mnemonic under which the DNS library knows a type code, such as `MX`
/// for 15.
pub uninterp spec fn type_mnemonic(code: u16) -> Seq<char>;

/// An ASCII letter or digit.
pub open spec fn is_ascii_alphanumeric(c: char) -> bool {
    ('0' <= c && c <= '9') || ('A' <= c && c <= 'Z') || ('a' <= c && c <= 'z')
}

/// `RecordType::from(u16)` followed by the type's `Display`: the mnemonic of
/// the type code, which is made of ASCII letters and digits only.
#[verifier::external_body]
pub(crate) fn record_type_text(code: u16) -> (text: String)
    ensures
        text@ == type_mnemonic(code),
        forall|i: int| 0 <= i < text@.len() ==> is_ascii_alphanumeric(#[trigger] text@[i]),
{
    RecordType::from(code).to_string()
}

} // verus!
