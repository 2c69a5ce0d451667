//! The errors of the client of the placement service, their codes and
//! their messages.

use vstd::prelude::*;
use vstd::string::StringExecFns;
use crate::error_code::ErrorCode;
use crate::hex_text::{encode_upper, upper_hex};
use crate::text::{debug_quote, debug_quoted, decimal, decimal_text};

verus! {

/// An error of the client of the placement service. An error that comes
/// from outside the library is held by its rendered text.
#[derive(Debug)]
pub enum Error {
    /// The description of the I/O error.
    Io(String),
    ClusterBootstrapped(u64),
    ClusterNotBootstrapped(u64),
    Incompatible,
    /// The description of the RPC error.
    Grpc(String),
    /// The `Debug` form of the error.
    Other(String),
    RegionNotFound(Vec<u8>),
    /// What the store reported, as it is; the message quotes it.
    StoreTombstone(String),
}

impl Error {
    /// The code of the error.
    pub open spec fn code(self) -> Seq<char> {
        match self {
            Error::Io(_) => "KV:PD:IO"@,
            Error::ClusterBootstrapped(_) => "KV:PD:ClusterBootstrapped"@,
            Error::ClusterNotBootstrapped(_) => "KV:PD:ClusterNotBootstrapped"@,
            Error::Incompatible => "KV:PD:Incompatible"@,
            Error::Grpc(_) => "KV:PD:gRPC"@,
            Error::RegionNotFound(_) => "KV:PD:RegionNotFound"@,
            Error::StoreTombstone(_) => "KV:PD:StoreTombstone"@,
            Error::Other(_) => "KV:PD:Unknown"@,
        }
    }

    /// The text that describes the error to a reader.
    pub open spec fn text(self) -> Seq<char> {
        match self {
            Error::Io(m) => m@,
            Error::ClusterBootstrapped(id) => "cluster "@ + decimal_text(id as nat)
                + " is already bootstrapped"@,
            Error::ClusterNotBootstrapped(id) => "cluster "@ + decimal_text(id as nat)
                + " is not bootstrapped"@,
            Error::Incompatible => "feature is not supported in other cluster components"@,
            Error::Grpc(m) => m@,
            Error::Other(m) => "unknown error "@ + m@,
            Error::RegionNotFound(key) => "region is not found for key "@ + upper_hex(key@),
            Error::StoreTombstone(m) => "store is tombstone "@ + debug_quoted(m@),
        }
    }

    /// The code of the error.
    pub fn error_code(&self) -> (code: ErrorCode)
        ensures
            code@ == self.code(),
    {
        match self {
            Error::Io(_) => ErrorCode { code: "KV:PD:IO" },
            Error::ClusterBootstrapped(_) => ErrorCode { code: "KV:PD:ClusterBootstrapped" },
            Error::ClusterNotBootstrapped(_) => ErrorCode { code: "KV:PD:ClusterNotBootstrapped" },
            Error::Incompatible => ErrorCode { code: "KV:PD:Incompatible" },
            Error::Grpc(_) => ErrorCode { code: "KV:PD:gRPC" },
            Error::RegionNotFound(_) => ErrorCode { code: "KV:PD:RegionNotFound" },
            Error::StoreTombstone(_) => ErrorCode { code: "KV:PD:StoreTombstone" },
            Error::Other(_) => ErrorCode { code: "KV:PD:Unknown" },
        }
    }

    /// The text that describes the error to a reader.
    pub fn message(&self) -> (text: String)
        ensures
            text@ == self.text(),
    {
        match self {
            Error::Io(m) => m.clone(),
            Error::ClusterBootstrapped(id) => {
                let number = decimal(*id);
                String::from_str("cluster ").concat(number.as_str()).concat(
                    " is already bootstrapped",
                )
            },
            Error::ClusterNotBootstrapped(id) => {
                let number = decimal(*id);
                String::from_str("cluster ").concat(number.as_str()).concat(" is not bootstrapped")
            },
            Error::Incompatible => String::from_str(
                "feature is not supported in other cluster components",
            ),
            Error::Grpc(m) => m.clone(),
            Error::Other(m) => String::from_str("unknown error ").concat(m.as_str()),
            Error::RegionNotFound(key) => {
                let key_text = encode_upper(key);
                String::from_str("region is not found for key ").concat(key_text.as_str())
            },
            Error::StoreTombstone(m) => {
                let quoted = debug_quote(m);
                tombstone_message(quoted.as_str())
            },
        }
    }
}

/// The message of a tombstone error, `quoted` being the quoted form of
/// what the store reported.
pub fn tombstone_message(quoted: &str) -> (text: String)
    ensures
        text@ == "store is tombstone "@ + quoted@,
{
    String::from_str("store is tombstone ").concat(quoted)
}

} // verus!
