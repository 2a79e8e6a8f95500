//! What can go wrong before any record is rendered.

use vstd::prelude::*;

verus! {

/// The transport of a DNS connection.
#[derive(Clone, Copy, Debug, PartialEq, Eq, Structural)]
pub enum ConnectionType {
    Udp,
    Tcp,
}

impl ConnectionType {
    /// The transport's name as it is written on the command line.
    pub open spec fn label_text(&self) -> Seq<char> {
        match self {
            ConnectionType::Udp => "udp"@,
            ConnectionType::Tcp => "tcp"@,
        }
    }

    pub fn label(&self) -> (text: &'static str)
        ensures
            text@ == self.label_text(),
    {
        match self {
            ConnectionType::Udp => "udp",
            ConnectionType::Tcp => "tcp",
        }
    }
}

/// The ways in which a lookup fails. Each carries the input that was at fault.
#[derive(Clone, Debug)]
pub enum AppError {
    /// The domain name could not be parsed.
    InvalidDomainName(String),
    /// A record type was given by a mnemonic that is not known.
    UnknownRecordType(String),
    /// The server address could not be parsed.
    InvalidDnsServer(String),
    /// No connection of the given transport could be made to the server.
    DNSServerUnreachable(ConnectionType, String),
    /// The query failed; the text is the DNS client's account of it.
    QueryError(String),
}

/// `text` as std's `Debug` shows a string: between double quotes, with
/// quotes, backslashes and unprintable characters escaped.
pub uninterp spec fn debug_text(text: Seq<char>) -> Seq<char>;

/// `Debug` of `str`, through `format!`.
#[verifier::external_body]
pub(crate) fn debug_quoted(text: &str) -> (quoted: String)
    ensures
        quoted@ == debug_text(text@),
{
    format!("{:?}", text)
}

impl AppError {
    /// The input that the error is about; for a failed query, the client's
    /// account of it.
    pub open spec fn subject_text(&self) -> Seq<char> {
        match self {
            AppError::InvalidDomainName(domain) => domain@,
            AppError::UnknownRecordType(record_type) => record_type@,
            AppError::InvalidDnsServer(host) => host@,
            AppError::DNSServerUnreachable(_, host) => host@,
            AppError::QueryError(client_error) => client_error@,
        }
    }

    /// The message that reports the error, given the quoted form of the input
    /// that it is about. A failed query is reported in the client's own
    /// words, unquoted.
    pub open spec fn message_around(&self, quoted: Seq<char>) -> Seq<char> {
        match self {
            AppError::InvalidDomainName(_) => "Invalid name: "@ + quoted,
            AppError::UnknownRecordType(_) => "Cannot parse record type: "@ + quoted,
            AppError::InvalidDnsServer(_) => "Cannot parse DNS server address: "@ + quoted,
            AppError::DNSServerUnreachable(connection_type, _) => "Cannot establish "@
                + connection_type.label_text() + " connection with "@ + quoted,
            AppError::QueryError(client_error) => "Cannot send DNS query: "@ + client_error@,
        }
    }

    /// The message that reports the error.
    pub open spec fn message_text(&self) -> Seq<char> {
        self.message_around(debug_text(self.subject_text()))
    }

    pub fn subject(&self) -> (text: &str)
        ensures
            text@ == self.subject_text(),
    {
        match self {
            AppError::InvalidDomainName(domain) => domain.as_str(),
            AppError::UnknownRecordType(record_type) => record_type.as_str(),
            AppError::InvalidDnsServer(host) => host.as_str(),
            AppError::DNSServerUnreachable(_, host) => host.as_str(),
            AppError::QueryError(client_error) => client_error.as_str(),
        }
    }

    /// The message around an input that is already quoted.
    pub fn message_with(&self, quoted: &str) -> (text: String)
        ensures
            text@ == self.message_around(quoted@),
    {
        match self {
            AppError::InvalidDomainName(_) => {
                let mut text = "Invalid name: ".to_owned();
                text.append(quoted);
                text
            },
            AppError::UnknownRecordType(_) => {
                let mut text = "Cannot parse record type: ".to_owned();
                text.append(quoted);
                text
            },
            AppError::InvalidDnsServer(_) => {
                let mut text = "Cannot parse DNS server address: ".to_owned();
                text.append(quoted);
                text
            },
            AppError::DNSServerUnreachable(connection_type, _) => {
                let mut text = "Cannot establish ".to_owned();
                text.append(connection_type.label());
                text.append(" connection with ");
                text.append(quoted);
                text
            },
            AppError::QueryError(client_error) => {
                let mut text = "Cannot send DNS query: ".to_owned();
                text.append(client_error.as_str());
                text
            },
        }
    }

    pub fn message(&self) -> (text: String)
        ensures
            text@ == self.message_text(),
    {
        let quoted = debug_quoted(self.subject());
        self.message_with(quoted.as_str())
    }
}

} // verus!
