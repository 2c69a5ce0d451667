//! The errors of the bulk-import pipeline, their metric labels, their
//! codes and their messages.

use vstd::prelude::*;
use vstd::string::StringExecFns;
use crate::error_code::ErrorCode;
use crate::hex_text::{encode_upper, upper_hex};

verus! {

/// An error of the bulk-import pipeline. An error that comes from outside
/// the library is held by its rendered text, together with its code where
/// it brings one. Whoever builds a variant renders the outside value as
/// the variant says; the library puts the texts together and changes none.
#[derive(Debug)]
pub enum Error {
    /// The description of the I/O error.
    Io(String),
    /// The description of the RPC error.
    Grpc(String),
    /// The description of the error.
    Uuid(String),
    /// The error of the channel; its text is not shown.
    Future(String),
    RocksDB(String),
    /// The code of the engine error and its `Debug` form.
    EngineTraits(ErrorCode, String),
    /// The description of the error.
    ParseIntError(String),
    /// The path in its `Debug` form, that is, quoted and escaped.
    FileExists(String),
    /// The path in its `Debug` form, and the reason.
    FileCorrupted(String, String),
    /// The path in its `Debug` form.
    InvalidSSTPath(String),
    InvalidChunk,
    /// The `Display` form of the error.
    Engine(String),
    /// The address, the name, the local path as it is displayed (not
    /// quoted), and the `Display` form of the I/O error.
    CannotReadExternalStorage(String, String, String, String),
    /// What has the wrong prefix, the key, and the prefix that it lacks.
    WrongKeyPrefix(&'static str, Vec<u8>, Vec<u8>),
    BadFormat(String),
    /// The code of the encryption error and its `Debug` form.
    Encryption(ErrorCode, String),
    /// The code of the codec error and its description.
    CodecError(ErrorCode, String),
}

impl Error {
    /// The label under which the error is counted, if it is counted.
    pub open spec fn metric_label(self) -> Option<Seq<char>> {
        match self {
            Error::Io(..) => Some("io"@),
            Error::Grpc(..) => Some("grpc"@),
            Error::Uuid(..) => Some("uuid"@),
            Error::RocksDB(..) => Some("rocksdb"@),
            Error::EngineTraits(..) => Some("engine_traits"@),
            Error::ParseIntError(..) => Some("parse_int"@),
            Error::FileExists(..) => Some("file_exists"@),
            Error::FileCorrupted(..) => Some("file_corrupt"@),
            Error::InvalidSSTPath(..) => Some("invalid_sst"@),
            Error::Engine(..) => Some("engine"@),
            Error::CannotReadExternalStorage(..) => Some("read_external_storage"@),
            Error::WrongKeyPrefix(..) => Some("wrong_prefix"@),
            Error::BadFormat(..) => Some("bad_format"@),
            Error::Encryption(..) => Some("encryption"@),
            Error::CodecError(..) => Some("codec"@),
            Error::Future(..) => None,
            Error::InvalidChunk => None,
        }
    }

    /// The code of the error. An engine, encryption or codec error keeps
    /// the code that it brought.
    pub open spec fn code(self) -> Seq<char> {
        match self {
            Error::Io(_) => "KV:SSTImporter:IO"@,
            Error::Grpc(_) => "KV:SSTImporter:gRPC"@,
            Error::Uuid(_) => "KV:SSTImporter:UUID"@,
            Error::Future(_) => "KV:SSTImporter:Future"@,
            Error::RocksDB(_) => "KV:SSTImporter:RocksDB"@,
            Error::EngineTraits(c, _) => c@,
            Error::ParseIntError(_) => "KV:SSTImporter:ParseIntError"@,
            Error::FileExists(_) => "KV:SSTImporter:FileExists"@,
            Error::FileCorrupted(_, _) => "KV:SSTImporter:FileCorrupted"@,
            Error::InvalidSSTPath(_) => "KV:SSTImporter:InvalidSSTPath"@,
            Error::InvalidChunk => "KV:SSTImporter:InvalidChunk"@,
            Error::Engine(_) => "KV:SSTImporter:Engine"@,
            Error::CannotReadExternalStorage(_, _, _, _) => "KV:SSTImporter:CannotReadExternalStorage"@,
            Error::WrongKeyPrefix(_, _, _) => "KV:SSTImporter:WrongKeyPrefix"@,
            Error::BadFormat(_) => "KV:SSTImporter:BadFormat"@,
            Error::Encryption(c, _) => c@,
            Error::CodecError(c, _) => c@,
        }
    }

    /// The text that describes the error to a reader.
    pub open spec fn text(self) -> Seq<char> {
        match self {
            Error::Io(m) => m@,
            Error::Grpc(m) => m@,
            Error::Uuid(m) => m@,
            Error::Future(_) => "Future"@,
            Error::RocksDB(m) => "RocksDB "@ + m@,
            Error::EngineTraits(_, m) => "Engine "@ + m@,
            Error::ParseIntError(m) => m@,
            Error::FileExists(path) => "File "@ + path@ + " exists"@,
            Error::FileCorrupted(path, reason) => "File "@ + path@ + " corrupted: "@ + reason@,
            Error::InvalidSSTPath(path) => "Invalid SST path "@ + path@,
            Error::InvalidChunk => "InvalidChunk"@,
            Error::Engine(m) => m@,
            Error::CannotReadExternalStorage(url, name, local_path, cause) => "Cannot read "@ + url@
                + "/"@ + name@ + " into "@ + local_path@ + ": "@ + cause@,
            Error::WrongKeyPrefix(what, key, prefix) => what@ + " has wrong prefix: key "@
                + upper_hex(key@) + " does not start with "@ + upper_hex(prefix@),
            Error::BadFormat(m) => "bad format "@ + m@,
            Error::Encryption(_, m) => "Encryption "@ + m@,
            Error::CodecError(_, m) => m@,
        }
    }

    /// The code of the error.
    pub fn error_code(&self) -> (code: ErrorCode)
        ensures
            code@ == self.code(),
    {
        match self {
            Error::Io(_) => ErrorCode { code: "KV:SSTImporter:IO" },
            Error::Grpc(_) => ErrorCode { code: "KV:SSTImporter:gRPC" },
            Error::Uuid(_) => ErrorCode { code: "KV:SSTImporter:UUID" },
            Error::Future(_) => ErrorCode { code: "KV:SSTImporter:Future" },
            Error::RocksDB(_) => ErrorCode { code: "KV:SSTImporter:RocksDB" },
            Error::EngineTraits(c, _) => *c,
            Error::ParseIntError(_) => ErrorCode { code: "KV:SSTImporter:ParseIntError" },
            Error::FileExists(_) => ErrorCode { code: "KV:SSTImporter:FileExists" },
            Error::FileCorrupted(_, _) => ErrorCode { code: "KV:SSTImporter:FileCorrupted" },
            Error::InvalidSSTPath(_) => ErrorCode { code: "KV:SSTImporter:InvalidSSTPath" },
            Error::InvalidChunk => ErrorCode { code: "KV:SSTImporter:InvalidChunk" },
            Error::Engine(_) => ErrorCode { code: "KV:SSTImporter:Engine" },
            Error::CannotReadExternalStorage(_, _, _, _) => ErrorCode {
                code: "KV:SSTImporter:CannotReadExternalStorage",
            },
            Error::WrongKeyPrefix(_, _, _) => ErrorCode { code: "KV:SSTImporter:WrongKeyPrefix" },
            Error::BadFormat(_) => ErrorCode { code: "KV:SSTImporter:BadFormat" },
            Error::Encryption(c, _) => *c,
            Error::CodecError(c, _) => *c,
        }
    }

    /// The text that describes the error to a reader.
    pub fn message(&self) -> (text: String)
        ensures
            text@ == self.text(),
    {
        match self {
            Error::Io(m) => m.clone(),
            Error::Grpc(m) => m.clone(),
            Error::Uuid(m) => m.clone(),
            Error::Future(_) => String::from_str("Future"),
            Error::RocksDB(m) => String::from_str("RocksDB ").concat(m.as_str()),
            Error::EngineTraits(_, m) => String::from_str("Engine ").concat(m.as_str()),
            Error::ParseIntError(m) => m.clone(),
            Error::FileExists(path) => String::from_str("File ").concat(path.as_str()).concat(
                " exists",
            ),
            Error::FileCorrupted(path, reason) => String::from_str("File ").concat(
                path.as_str(),
            ).concat(" corrupted: ").concat(reason.as_str()),
            Error::InvalidSSTPath(path) => String::from_str("Invalid SST path ").concat(
                path.as_str(),
            ),
            Error::InvalidChunk => String::from_str("InvalidChunk"),
            Error::Engine(m) => m.clone(),
            Error::CannotReadExternalStorage(url, name, local_path, cause) => String::from_str(
                "Cannot read ",
            ).concat(url.as_str()).concat("/").concat(name.as_str()).concat(" into ").concat(
                local_path.as_str(),
            ).concat(": ").concat(cause.as_str()),
            Error::WrongKeyPrefix(what, key, prefix) => {
                let key_text = encode_upper(key);
                let prefix_text = encode_upper(prefix);
                String::from_str(what).concat(" has wrong prefix: key ").concat(
                    key_text.as_str(),
                ).concat(" does not start with ").concat(prefix_text.as_str())
            },
            Error::BadFormat(m) => String::from_str("bad format ").concat(m.as_str()),
            Error::Encryption(_, m) => String::from_str("Encryption ").concat(m.as_str()),
            Error::CodecError(_, m) => m.clone(),
        }
    }
}

/// The label of the counter that an occurrence of `err` increments, or
/// `None` where the error is not counted.
pub fn error_inc(err: &Error) -> (label: Option<&'static str>)
    ensures
        match label {
            Some(l) => err.metric_label() == Some(l@),
            None => err.metric_label().is_none(),
        },
{
    let label = match err {
        Error::Io(..) => "io",
        Error::Grpc(..) => "grpc",
        Error::Uuid(..) => "uuid",
        Error::RocksDB(..) => "rocksdb",
        Error::EngineTraits(..) => "engine_traits",
        Error::ParseIntError(..) => "parse_int",
        Error::FileExists(..) => "file_exists",
        Error::FileCorrupted(..) => "file_corrupt",
        Error::InvalidSSTPath(..) => "invalid_sst",
        Error::Engine(..) => "engine",
        Error::CannotReadExternalStorage(..) => "read_external_storage",
        Error::WrongKeyPrefix(..) => "wrong_prefix",
        Error::BadFormat(..) => "bad_format",
        Error::Encryption(..) => "encryption",
        Error::CodecError(..) => "codec",
        _ => {
            return None;
        },
    };
    Some(label)
}

} // verus!
