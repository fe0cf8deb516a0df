//! The failures that the library reports.

use crate::bencode::BencodeError;
use vstd::prelude::*;
use vstd::string::*;

verus! {

/// What is wrong with a request.
#[derive(Debug, Clone, Copy, PartialEq, Eq, Structural)]
pub enum InputError {
    /// The name hint is longer than allowed.
    NameHintTooLong,
    /// The save path is blank.
    SavePathEmpty,
    /// The save path is longer than allowed.
    SavePathTooLong,
    /// The save path holds a NUL character.
    SavePathHasNul,
    /// Neither a magnet link nor torrent data was given.
    MissingSource,
    /// Both a magnet link and torrent data were given.
    AmbiguousSource,
    /// The encoded torrent data is longer than allowed.
    TorrentTooLarge,
    /// The torrent data is not valid base64.
    InvalidBase64,
    /// The decoded torrent data is longer than allowed.
    DecodedTorrentTooLarge,
    /// The magnet link is longer than allowed.
    MagnetTooLong,
    /// The magnet link does not start with `magnet:?`.
    InvalidMagnet,
    /// The hop count is larger than allowed.
    TooManyHops,
    /// More paths than allowed were given.
    TooManyPaths,
    /// The priority is none of `skip`, `low`, `normal`, `high`.
    InvalidPriority,
    /// A path has more components than allowed.
    PathTooDeep,
    /// A path component is longer than allowed.
    PathComponentTooLong,
    /// The grace period is longer than allowed.
    GracePeriodTooLong,
    /// The listen port lies outside the allowed range.
    InvalidPort,
    /// The torrent data does not hold a dictionary at its root.
    RootNotDict,
    /// The torrent data holds no `info` dictionary.
    MissingInfoDict,
}

/// Why an operation of the library failed.
#[derive(Debug, Clone, Copy, PartialEq, Eq, Structural)]
pub enum OrcError {
    /// No torrent has the given id.
    NotFound,
    /// The registry already holds as many torrents as it may.
    CapacityExceeded,
    /// The request is malformed.
    InvalidInput(InputError),
    /// Torrent metadata could not be decoded.
    DecodeFailure(BencodeError),
    /// The transfer engine did not do what was asked.
    EngineFailure,
    /// The kill switch blocks network activity.
    PolicyRejected,
}

impl BencodeError {
    /// What the error says.
    pub open spec fn text(self) -> Seq<char> {
        match self {
            BencodeError::TooDeep => "bencode nesting too deep (max 100)"@,
            BencodeError::TooLarge => "bencode input too large (max 104857600 bytes)"@,
            BencodeError::Eof => "eof"@,
            BencodeError::UnterminatedInt => "unterminated int"@,
            BencodeError::IntTooLong => "integer too long"@,
            BencodeError::InvalidInt => "invalid integer"@,
            BencodeError::ListTooLarge => "list too large (max 100000 items)"@,
            BencodeError::UnterminatedList => "unterminated list"@,
            BencodeError::DictTooLarge => "dict too large (max 100000 items)"@,
            BencodeError::DictKeyNotBytes => "dict key is not bytes"@,
            BencodeError::UnterminatedDict => "unterminated dict"@,
            BencodeError::InvalidLength => "invalid bytes length"@,
            BencodeError::LengthTooLong => "bytes length string too long"@,
            BencodeError::InvalidLengthDigits => "invalid bytes length digits"@,
            BencodeError::BytesTooLarge => "byte string too large (max 10485760 bytes)"@,
            BencodeError::BytesOutOfRange => "bytes out of range"@,
            BencodeError::InvalidPrefix => "invalid bencode prefix"@,
        }
    }

    /// The error in words.
    pub fn message(&self) -> (m: String)
        ensures
            m@ == self.text(),
    {
        let m = match self {
            BencodeError::TooDeep => "bencode nesting too deep (max 100)",
            BencodeError::TooLarge => "bencode input too large (max 104857600 bytes)",
            BencodeError::Eof => "eof",
            BencodeError::UnterminatedInt => "unterminated int",
            BencodeError::IntTooLong => "integer too long",
            BencodeError::InvalidInt => "invalid integer",
            BencodeError::ListTooLarge => "list too large (max 100000 items)",
            BencodeError::UnterminatedList => "unterminated list",
            BencodeError::DictTooLarge => "dict too large (max 100000 items)",
            BencodeError::DictKeyNotBytes => "dict key is not bytes",
            BencodeError::UnterminatedDict => "unterminated dict",
            BencodeError::InvalidLength => "invalid bytes length",
            BencodeError::LengthTooLong => "bytes length string too long",
            BencodeError::InvalidLengthDigits => "invalid bytes length digits",
            BencodeError::BytesTooLarge => "byte string too large (max 10485760 bytes)",
            BencodeError::BytesOutOfRange => "bytes out of range",
            BencodeError::InvalidPrefix => "invalid bencode prefix",
        };
        m.to_owned()
    }
}

impl InputError {
    /// What the error says.
    pub open spec fn text(self) -> Seq<char> {
        match self {
            InputError::NameHintTooLong => "Name hint too long (max 1000 chars)"@,
            InputError::SavePathEmpty => "save_path cannot be empty"@,
            InputError::SavePathTooLong => "save_path too long (max 4096 chars)"@,
            InputError::SavePathHasNul => "save_path cannot contain null bytes"@,
            InputError::MissingSource => "Must provide either magnet or torrent_b64"@,
            InputError::AmbiguousSource => "Cannot provide both magnet and torrent_b64"@,
            InputError::TorrentTooLarge => "Torrent file too large (max 10MB)"@,
            InputError::InvalidBase64 => "Invalid base64 torrent"@,
            InputError::DecodedTorrentTooLarge => "Decoded torrent file too large (max 10MB)"@,
            InputError::MagnetTooLong => "Magnet link too long"@,
            InputError::InvalidMagnet => "Invalid magnet link format"@,
            InputError::TooManyHops => "Hops value too large (max 10)"@,
            InputError::TooManyPaths => "Too many paths (max 10000)"@,
            InputError::InvalidPriority => "Invalid priority: must be one of skip, low, normal, high"@,
            InputError::PathTooDeep => "Path depth too large (max 100 components)"@,
            InputError::PathComponentTooLong => "Path component too long (max 255 chars)"@,
            InputError::GracePeriodTooLong => "Grace period too large (max 3600 seconds)"@,
            InputError::InvalidPort => "Invalid listen_port (must be between 1024 and 65535)"@,
            InputError::RootNotDict => "torrent root is not a dict"@,
            InputError::MissingInfoDict => "missing info dict"@,
        }
    }

    /// The error in words.
    pub fn message(&self) -> (m: String)
        ensures
            m@ == self.text(),
    {
        let m = match self {
            InputError::NameHintTooLong => "Name hint too long (max 1000 chars)",
            InputError::SavePathEmpty => "save_path cannot be empty",
            InputError::SavePathTooLong => "save_path too long (max 4096 chars)",
            InputError::SavePathHasNul => "save_path cannot contain null bytes",
            InputError::MissingSource => "Must provide either magnet or torrent_b64",
            InputError::AmbiguousSource => "Cannot provide both magnet and torrent_b64",
            InputError::TorrentTooLarge => "Torrent file too large (max 10MB)",
            InputError::InvalidBase64 => "Invalid base64 torrent",
            InputError::DecodedTorrentTooLarge => "Decoded torrent file too large (max 10MB)",
            InputError::MagnetTooLong => "Magnet link too long",
            InputError::InvalidMagnet => "Invalid magnet link format",
            InputError::TooManyHops => "Hops value too large (max 10)",
            InputError::TooManyPaths => "Too many paths (max 10000)",
            InputError::InvalidPriority => "Invalid priority: must be one of skip, low, normal, high",
            InputError::PathTooDeep => "Path depth too large (max 100 components)",
            InputError::PathComponentTooLong => "Path component too long (max 255 chars)",
            InputError::GracePeriodTooLong => "Grace period too large (max 3600 seconds)",
            InputError::InvalidPort => "Invalid listen_port (must be between 1024 and 65535)",
            InputError::RootNotDict => "torrent root is not a dict",
            InputError::MissingInfoDict => "missing info dict",
        };
        m.to_owned()
    }
}

impl OrcError {
    /// What the error says.
    pub open spec fn text(self) -> Seq<char> {
        match self {
            OrcError::NotFound => "Not found"@,
            OrcError::CapacityExceeded => "Maximum number of torrents (10000) reached"@,
            OrcError::InvalidInput(e) => e.text(),
            OrcError::DecodeFailure(e) => e.text(),
            OrcError::EngineFailure => "rqbit did not return a torrent id"@,
            OrcError::PolicyRejected => "Network blocked: VPN kill switch is engaged. Please connect to VPN to resume torrents."@,
        }
    }

    /// The error in words.
    pub fn message(&self) -> (m: String)
        ensures
            m@ == self.text(),
    {
        match self {
            OrcError::NotFound => "Not found".to_owned(),
            OrcError::CapacityExceeded => "Maximum number of torrents (10000) reached".to_owned(),
            OrcError::InvalidInput(e) => e.message(),
            OrcError::DecodeFailure(e) => e.message(),
            OrcError::EngineFailure => "rqbit did not return a torrent id".to_owned(),
            OrcError::PolicyRejected => "Network blocked: VPN kill switch is engaged. Please connect to VPN to resume torrents.".to_owned(),
        }
    }
}

} // verus!
