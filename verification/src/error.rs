//! The error taxonomy of the library: a kind for each failure layer
//! (configuration, fetch, persistence, parsing, connection) and a thin
//! `Error` carrier around it.

use vstd::prelude::*;

verus! {

/// The kinds of failure this library reports.
#[derive(Debug)]
pub enum ErrorKind {
    /// Config Error
    ConfigError(String),
    /// P2P Error
    RequestError(String),
    /// IO Error
    IOError(String),
    /// Hyper Error
    Hyper(String),
    /// OsString Error
    OsString(String),
    /// Log not configured Error
    LogNotConfigured(String),
    /// Path not found
    PathNotFoundError(String),
    /// Invalid TOML File
    TomlError(String),
    /// Store Error
    StoreError(String),
    /// AddrParseError
    AddrParseError(String),
    /// Parse Int Error
    ParseIntError(String),
    /// Poison Error
    PoisonError(String),
    /// SystemTimeError
    SystemTimeError(String),
    /// SpawnError
    SpawnError(String),
    /// Tcp Connect Error
    TcpConnectError(String),
}

impl Clone for ErrorKind {
    fn clone(&self) -> (r: Self)
        ensures
            r == *self,
    {
        match self {
            ErrorKind::ConfigError(s) => ErrorKind::ConfigError(s.clone()),
            ErrorKind::RequestError(s) => ErrorKind::RequestError(s.clone()),
            ErrorKind::IOError(s) => ErrorKind::IOError(s.clone()),
            ErrorKind::Hyper(s) => ErrorKind::Hyper(s.clone()),
            ErrorKind::OsString(s) => ErrorKind::OsString(s.clone()),
            ErrorKind::LogNotConfigured(s) => ErrorKind::LogNotConfigured(s.clone()),
            ErrorKind::PathNotFoundError(s) => ErrorKind::PathNotFoundError(s.clone()),
            ErrorKind::TomlError(s) => ErrorKind::TomlError(s.clone()),
            ErrorKind::StoreError(s) => ErrorKind::StoreError(s.clone()),
            ErrorKind::AddrParseError(s) => ErrorKind::AddrParseError(s.clone()),
            ErrorKind::ParseIntError(s) => ErrorKind::ParseIntError(s.clone()),
            ErrorKind::PoisonError(s) => ErrorKind::PoisonError(s.clone()),
            ErrorKind::SystemTimeError(s) => ErrorKind::SystemTimeError(s.clone()),
            ErrorKind::SpawnError(s) => ErrorKind::SpawnError(s.clone()),
            ErrorKind::TcpConnectError(s) => ErrorKind::TcpConnectError(s.clone()),
        }
    }
}

/// An error of the library: a kind, carried as a plain value.
#[derive(Debug)]
pub struct Error {
    pub kind: ErrorKind,
}

impl Error {
    /// get kind
    pub fn kind(&self) -> (r: ErrorKind)
        ensures
            r == self.kind,
    {
        self.kind.clone()
    }
}

impl Clone for Error {
    fn clone(&self) -> (r: Self)
        ensures
            r == *self,
    {
        Error { kind: self.kind.clone() }
    }
}

impl From<ErrorKind> for Error {
    fn from(kind: ErrorKind) -> (r: Error) {
        Error { kind }
    }
}

impl vstd::std_specs::convert::FromSpecImpl<ErrorKind> for Error {
    open spec fn obeys_from_spec() -> bool {
        true
    }

    open spec fn from_spec(kind: ErrorKind) -> Error {
        Error { kind }
    }
}

} // verus!
