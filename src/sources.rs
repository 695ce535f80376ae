//! Source connections as the control plane shows them, and its errors with
//! the messages and status codes that a client sees.
use vstd::prelude::*;
use crate::text::{collect_chars, string_from_chars};

verus! {

/// How a request failed to name its tenant.
#[derive(Clone, Copy, Debug, PartialEq, Eq, Structural)]
pub enum TenantIdError {
    TenantIdMissing,
    TenantIdIllFormed,
}

/// A failure of the store of sources.
#[derive(Debug, Clone, PartialEq)]
pub enum SourcesDbError {
    /// The database failed; its own message is kept for the logs.
    Database(String),
    /// A stored password could not be encrypted or decrypted.
    Encryption,
}

/// The errors of the source endpoints.
#[derive(Debug, Clone, PartialEq)]
pub enum SourceError {
    SourceNotFound(i64),
    TenantId(TenantIdError),
    SourcesDb(SourcesDbError),
}

/// The decimal digits of `n`.
pub open spec fn nat_decimal(n: nat) -> Seq<char>
    decreases n,
{
    if n < 10 {
        seq![(48 + n) as char]
    } else {
        nat_decimal(n / 10) + seq![(48 + n % 10) as char]
    }
}

/// `v` in decimal, with a leading minus sign when negative.
pub open spec fn int_decimal(v: int) -> Seq<char> {
    if v < 0 {
        seq!['-'] + nat_decimal((-v) as nat)
    } else {
        nat_decimal(v as nat)
    }
}

pub open spec fn tenant_message(e: TenantIdError) -> Seq<char> {
    match e {
        TenantIdError::TenantIdMissing => "tenant id missing in request"@,
        TenantIdError::TenantIdIllFormed => "tenant id ill formed in request"@,
    }
}

pub open spec fn internal_error_message() -> Seq<char> {
    "internal server error"@
}

pub open spec fn encryption_message() -> Seq<char> {
    "failed to encrypt or decrypt the source password"@
}

/// The message that a client is shown for `e`. A database failure shows no
/// detail of the database.
pub open spec fn message_of(e: SourceError) -> Seq<char> {
    match e {
        SourceError::SourceNotFound(id) => "The source with id "@ + int_decimal(id as int)
            + " was not found"@,
        SourceError::TenantId(t) => tenant_message(t),
        SourceError::SourcesDb(SourcesDbError::Database(_)) => internal_error_message(),
        SourceError::SourcesDb(SourcesDbError::Encryption) => encryption_message(),
    }
}

fn push_decimal(n: u64, out: &mut Vec<char>)
    ensures
        final(out)@ == old(out)@ + nat_decimal(n as nat),
    decreases n,
{
    if n >= 10 {
        push_decimal(n / 10, out);
    }
    let d = (n % 10) as u8;
    out.push((48u8 + d) as char);
    assert(out@ =~= old(out)@ + nat_decimal(n as nat));
}

fn push_str(out: &mut Vec<char>, s: &str)
    ensures
        final(out)@ == old(out)@ + s@,
{
    let mut more = collect_chars(s);
    out.append(&mut more);
}

impl SourceError {
    /// The message shown to a client.
    pub fn to_message(&self) -> (r: String)
        ensures
            r@ == message_of(*self),
    {
        let mut out: Vec<char> = Vec::new();
        match self {
            SourceError::SourceNotFound(id) => {
                push_str(&mut out, "The source with id ");
                if *id < 0 {
                    out.push('-');
                    let m: u64 = if *id == i64::MIN {
                        9_223_372_036_854_775_808
                    } else {
                        (-*id) as u64
                    };
                    push_decimal(m, &mut out);
                } else {
                    push_decimal(*id as u64, &mut out);
                }
                push_str(&mut out, " was not found");
                assert(out@ =~= message_of(*self));
            },
            SourceError::TenantId(TenantIdError::TenantIdMissing) => {
                push_str(&mut out, "tenant id missing in request");
                assert(out@ =~= message_of(*self));
            },
            SourceError::TenantId(TenantIdError::TenantIdIllFormed) => {
                push_str(&mut out, "tenant id ill formed in request");
                assert(out@ =~= message_of(*self));
            },
            SourceError::SourcesDb(SourcesDbError::Database(_)) => {
                push_str(&mut out, "internal server error");
                assert(out@ =~= message_of(*self));
            },
            SourceError::SourcesDb(SourcesDbError::Encryption) => {
                push_str(&mut out, "failed to encrypt or decrypt the source password");
                assert(out@ =~= message_of(*self));
            },
        }
        string_from_chars(out.as_slice())
    }

    /// The HTTP status code of the response.
    pub fn status_code(&self) -> (r: u16)
        ensures
            r == match *self {
                SourceError::SourcesDb(_) => 500u16,
                SourceError::SourceNotFound(_) => 404u16,
                SourceError::TenantId(_) => 400u16,
            },
    {
        match self {
            SourceError::SourcesDb(_) => 500,
            SourceError::SourceNotFound(_) => 404,
            SourceError::TenantId(_) => 400,
        }
    }
}

/// How to connect to a source database.
#[derive(Debug, Clone, PartialEq)]
pub struct SourceConfig {
    pub host: String,
    pub port: u16,
    pub name: String,
    pub username: String,
    pub password: Option<String>,
}

/// A source's connection settings without its password.
#[derive(Debug, Clone, PartialEq)]
pub struct StrippedSourceConfig {
    pub host: String,
    pub port: u16,
    pub name: String,
    pub username: String,
}

impl From<SourceConfig> for StrippedSourceConfig {
    fn from(source: SourceConfig) -> (r: Self)
        ensures
            r.host@ == source.host@,
            r.port == source.port,
            r.name@ == source.name@,
            r.username@ == source.username@,
    {
        Self { host: source.host, port: source.port, name: source.name, username: source.username }
    }
}

impl vstd::std_specs::convert::FromSpecImpl<SourceConfig> for StrippedSourceConfig {
    open spec fn obeys_from_spec() -> bool {
        true
    }

    open spec fn from_spec(source: SourceConfig) -> Self {
        StrippedSourceConfig {
            host: source.host,
            port: source.port,
            name: source.name,
            username: source.username,
        }
    }
}

#[derive(Debug, Clone, PartialEq)]
pub struct CreateSourceRequest {
    pub name: String,
    pub config: SourceConfig,
}

#[derive(Debug, Clone, PartialEq)]
pub struct CreateSourceResponse {
    pub id: i64,
}

#[derive(Debug, Clone, PartialEq)]
pub struct UpdateSourceRequest {
    pub name: String,
    pub config: SourceConfig,
}

#[derive(Debug, Clone, PartialEq)]
pub struct ReadSourceResponse {
    pub id: i64,
    pub tenant_id: String,
    pub name: String,
    pub config: StrippedSourceConfig,
}

impl ReadSourceResponse {
    /// The response for a stored source; its password is left out.
    pub fn from_source(id: i64, tenant_id: String, name: String, config: SourceConfig) -> (r: Self)
        ensures
            r.id == id,
            r.tenant_id@ == tenant_id@,
            r.name@ == name@,
            r.config.host@ == config.host@,
            r.config.port == config.port,
            r.config.name@ == config.name@,
            r.config.username@ == config.username@,
    {
        ReadSourceResponse { id, tenant_id, name, config: StrippedSourceConfig::from(config) }
    }
}

#[derive(Debug, Clone, PartialEq)]
pub struct ReadSourcesResponse {
    pub sources: Vec<ReadSourceResponse>,
}

} // verus!
