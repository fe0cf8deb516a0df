//! What clients ask of the daemon, and which of it is acceptable.

use crate::error::{InputError, OrcError};
use crate::magnet::MAX_MAGNET_LENGTH;
use crate::model::{DesiredPolicy, KillSwitchScope, KillSwitchTriggers, TorrentMode};
use crate::text::{
    blank, byte_len, chars_of, has_char, occurs_at, starts_with, str_eq, str_len, string_of,
    trim_chars, trimmed,
};
use base64::engine::general_purpose::STANDARD;
use base64::Engine;
use vstd::prelude::*;
use vstd::string::*;

verus! {

/// Longest name hint, in bytes.
pub const MAX_NAME_HINT_LENGTH: usize = 1000;

/// Longest save path, in bytes.
pub const MAX_SAVE_PATH_LENGTH: usize = 4096;

/// Longest base64 text of a torrent file, in bytes.
pub const MAX_BASE64_SIZE: usize = 13 * 1024 * 1024;

/// Longest torrent file, in bytes.
pub const MAX_DECODED_SIZE: usize = 10 * 1024 * 1024;

/// Most hops of an anonymity profile.
pub const MAX_HOPS: u32 = 10;

/// Most paths in one priority request.
pub const MAX_PATHS: usize = 10000;

/// Most components of one path in a priority request.
pub const MAX_REQUEST_PATH_DEPTH: usize = 100;

/// Longest path component in a priority request, in bytes.
pub const MAX_REQUEST_COMPONENT_LENGTH: usize = 255;

/// Longest grace period of the kill switch, in seconds.
pub const MAX_GRACE_PERIOD: u64 = 3600;

/// A request to add a torrent, from a magnet link or from a torrent file in
/// base64.
#[derive(Debug)]
pub struct AddTorrentRequest {
    pub magnet: Option<String>,
    pub torrent_b64: Option<String>,
    pub name_hint: Option<String>,
    pub save_path: Option<String>,
}

/// What the engine is handed to add a torrent.
#[derive(Debug)]
pub enum AddTorrentInput {
    Url(String),
    TorrentBytes(Vec<u8>),
}

/// The first fault of a save path, if it has one.
pub open spec fn save_path_fault(path: Seq<char>) -> Option<InputError> {
    if trimmed(path).len() == 0 {
        Some(InputError::SavePathEmpty)
    } else if byte_len(trimmed(path)) > MAX_SAVE_PATH_LENGTH {
        Some(InputError::SavePathTooLong)
    } else if trimmed(path).contains('\0') {
        Some(InputError::SavePathHasNul)
    } else {
        None
    }
}

/// The first fault of a request to add a torrent, if it has one: its name
/// hint is looked at first, then its save path, then its sources.
pub open spec fn add_request_fault(req: AddTorrentRequest) -> Option<InputError> {
    if req.name_hint is Some && byte_len(req.name_hint->0@) > MAX_NAME_HINT_LENGTH {
        Some(InputError::NameHintTooLong)
    } else if req.save_path is Some && save_path_fault(req.save_path->0@) is Some {
        save_path_fault(req.save_path->0@)
    } else if req.magnet is None && req.torrent_b64 is None {
        Some(InputError::MissingSource)
    } else if req.magnet is Some && req.torrent_b64 is Some {
        Some(InputError::AmbiguousSource)
    } else {
        None
    }
}

/// The outcome of a check that found `fault`.
pub open spec fn checked(fault: Option<InputError>) -> Result<(), OrcError> {
    match fault {
        Some(e) => Err(OrcError::InvalidInput(e)),
        None => Ok(()),
    }
}

impl AddTorrentRequest {
    /// Accepts a request with exactly one source, a name hint of at most
    /// [`MAX_NAME_HINT_LENGTH`] bytes and, if it has one, a save path that
    /// is neither blank nor too long and holds no NUL.
    pub fn validate(&self) -> (r: Result<(), OrcError>)
        ensures
            r == checked(add_request_fault(*self)),
    {
        if let Some(hint) = &self.name_hint {
            if str_len(hint.as_str()) > MAX_NAME_HINT_LENGTH {
                return Err(OrcError::InvalidInput(InputError::NameHintTooLong));
            }
        }
        if let Some(path) = &self.save_path {
            let chars = chars_of(path.as_str());
            let cut = trim_chars(&chars);
            if cut.len() == 0 {
                return Err(OrcError::InvalidInput(InputError::SavePathEmpty));
            }
            let text = string_of(cut.as_slice());
            if str_len(text.as_str()) > MAX_SAVE_PATH_LENGTH {
                return Err(OrcError::InvalidInput(InputError::SavePathTooLong));
            }
            if has_char(cut.as_slice(), '\0') {
                return Err(OrcError::InvalidInput(InputError::SavePathHasNul));
            }
        }
        let has_magnet = self.magnet.is_some();
        let has_torrent = self.torrent_b64.is_some();
        if !has_magnet && !has_torrent {
            return Err(OrcError::InvalidInput(InputError::MissingSource));
        }
        if has_magnet && has_torrent {
            return Err(OrcError::InvalidInput(InputError::AmbiguousSource));
        }
        Ok(())
    }
}

/// What the standard base64 alphabet with padding decodes a text to, if
/// the text is valid.
pub uninterp spec fn base64_decoded(text: Seq<char>) -> Option<Seq<u8>>;

/// Calls `decode` of the `base64` crate's `STANDARD` engine. The outcome
/// is named by [`base64_decoded`]; it is `None` where the crate reports a
/// decoding error.
#[verifier::external_body]
pub(crate) fn base64_decode(text: &str) -> (r: Option<Vec<u8>>)
    ensures
        match r {
            Some(bytes) => base64_decoded(text@) == Some(bytes@),
            None => base64_decoded(text@) is None,
        },
{
    STANDARD.decode(text).ok()
}

/// What the decoded torrent data of a request turns into.
pub open spec fn torrent_input(decoded: Option<Seq<u8>>) -> Result<Seq<u8>, OrcError> {
    match decoded {
        None => Err(OrcError::InvalidInput(InputError::InvalidBase64)),
        Some(bytes) => if bytes.len() > MAX_DECODED_SIZE {
            Err(OrcError::InvalidInput(InputError::DecodedTorrentTooLarge))
        } else {
            Ok(bytes)
        },
    }
}

/// What a request hands to the engine: its torrent data where it has any,
/// else its magnet link.
pub open spec fn add_input(req: AddTorrentRequest) -> Result<Result<Seq<u8>, Seq<char>>, OrcError> {
    if req.torrent_b64 is Some {
        if byte_len(req.torrent_b64->0@) > MAX_BASE64_SIZE {
            Err(OrcError::InvalidInput(InputError::TorrentTooLarge))
        } else {
            match torrent_input(base64_decoded(req.torrent_b64->0@)) {
                Ok(bytes) => Ok(Ok(bytes)),
                Err(e) => Err(e),
            }
        }
    } else if req.magnet is Some {
        if byte_len(req.magnet->0@) > MAX_MAGNET_LENGTH {
            Err(OrcError::InvalidInput(InputError::MagnetTooLong))
        } else if !occurs_at(vstd::utf8::encode_utf8(req.magnet->0@), "magnet:?".spec_bytes(), 0) {
            Err(OrcError::InvalidInput(InputError::InvalidMagnet))
        } else {
            Ok(Err(req.magnet->0@))
        }
    } else {
        Err(OrcError::InvalidInput(InputError::MissingSource))
    }
}

/// What an input for the engine holds: bytes of a torrent file, or the
/// text of a magnet link.
pub open spec fn input_view(input: AddTorrentInput) -> Result<Seq<u8>, Seq<char>> {
    match input {
        AddTorrentInput::TorrentBytes(b) => Ok(b@),
        AddTorrentInput::Url(u) => Err(u@),
    }
}

/// Accepts decoded torrent data of at most [`MAX_DECODED_SIZE`] bytes.
pub fn torrent_input_from(decoded: Option<Vec<u8>>) -> (r: Result<AddTorrentInput, OrcError>)
    ensures
        match r {
            Ok(input) => decoded is Some && torrent_input(Some(decoded->0@)) == Ok::<
                Seq<u8>,
                OrcError,
            >(decoded->0@) && input_view(input) == Ok::<Seq<u8>, Seq<char>>(decoded->0@),
            Err(e) => match decoded {
                Some(b) => torrent_input(Some(b@)) == Err::<Seq<u8>, OrcError>(e),
                None => torrent_input(None) == Err::<Seq<u8>, OrcError>(e),
            },
        },
{
    match decoded {
        None => Err(OrcError::InvalidInput(InputError::InvalidBase64)),
        Some(bytes) => {
            if bytes.len() > MAX_DECODED_SIZE {
                Err(OrcError::InvalidInput(InputError::DecodedTorrentTooLarge))
            } else {
                Ok(AddTorrentInput::TorrentBytes(bytes))
            }
        },
    }
}

/// Turns a request into what the engine is handed: the decoded torrent
/// file where the request has one, else its magnet link.
pub fn prepare_add_input(req: &AddTorrentRequest) -> (r: Result<AddTorrentInput, OrcError>)
    ensures
        match r {
            Ok(input) => add_input(*req) == Ok::<_, OrcError>(input_view(input)),
            Err(e) => add_input(*req) == Err::<Result<Seq<u8>, Seq<char>>, _>(e),
        },
{
    if let Some(b64) = &req.torrent_b64 {
        if str_len(b64.as_str()) > MAX_BASE64_SIZE {
            return Err(OrcError::InvalidInput(InputError::TorrentTooLarge));
        }
        return torrent_input_from(base64_decode(b64.as_str()));
    }
    if let Some(m) = &req.magnet {
        if str_len(m.as_str()) > MAX_MAGNET_LENGTH {
            return Err(OrcError::InvalidInput(InputError::MagnetTooLong));
        }
        if !starts_with(m.as_str().as_bytes(), "magnet:?".as_bytes()) {
            return Err(OrcError::InvalidInput(InputError::InvalidMagnet));
        }
        return Ok(AddTorrentInput::Url(m.clone()));
    }
    Err(OrcError::InvalidInput(InputError::MissingSource))
}

/// A request to change the anonymity profile of a torrent.
#[derive(Debug, Clone, Copy)]
pub struct PatchTorrentProfileRequest {
    pub mode: TorrentMode,
    pub hops: u32,
}

impl PatchTorrentProfileRequest {
    /// Accepts at most [`MAX_HOPS`] hops.
    pub fn validate(&self) -> (r: Result<(), OrcError>)
        ensures
            r == if self.hops > MAX_HOPS {
                Err::<(), _>(OrcError::InvalidInput(InputError::TooManyHops))
            } else {
                Ok(())
            },
    {
        if self.hops > MAX_HOPS {
            return Err(OrcError::InvalidInput(InputError::TooManyHops));
        }
        Ok(())
    }
}

/// A request to change the priority of some files of a torrent.
#[derive(Debug)]
pub struct PatchFilePriorityRequest {
    pub paths: Vec<Vec<String>>,
    pub priority: String,
}

/// A priority that a file can have.
pub open spec fn valid_priority(p: Seq<char>) -> bool {
    p == "skip"@ || p == "low"@ || p == "normal"@ || p == "high"@
}

/// The index of the first component of `path` that is too long, or the
/// length of `path` where there is none.
pub open spec fn first_long_component(path: Seq<String>, from: int) -> int
    decreases path.len() - from,
{
    if from < 0 || from >= path.len() || byte_len(path[from]@) > MAX_REQUEST_COMPONENT_LENGTH {
        from
    } else {
        first_long_component(path, from + 1)
    }
}

/// The fault of one path, if it has one.
pub open spec fn path_fault(path: Seq<String>) -> Option<InputError> {
    if path.len() > MAX_REQUEST_PATH_DEPTH {
        Some(InputError::PathTooDeep)
    } else if first_long_component(path, 0) < path.len() {
        Some(InputError::PathComponentTooLong)
    } else {
        None
    }
}

/// The fault of the first faulty path from index `from` on, if there is one.
pub open spec fn paths_fault(paths: Seq<Vec<String>>, from: int) -> Option<InputError>
    decreases paths.len() - from,
{
    if from < 0 || from >= paths.len() {
        None
    } else if path_fault(paths[from]@) is Some {
        path_fault(paths[from]@)
    } else {
        paths_fault(paths, from + 1)
    }
}

/// The first fault of a priority request, if it has one.
pub open spec fn priority_request_fault(req: PatchFilePriorityRequest) -> Option<InputError> {
    if req.paths.len() > MAX_PATHS {
        Some(InputError::TooManyPaths)
    } else if !valid_priority(req.priority@) {
        Some(InputError::InvalidPriority)
    } else {
        paths_fault(req.paths@, 0)
    }
}

/// Whether a text names a priority that a file can have.
pub fn is_valid_priority(p: &str) -> (r: bool)
    ensures
        r == valid_priority(p@),
{
    str_eq(p, "skip") || str_eq(p, "low") || str_eq(p, "normal") || str_eq(p, "high")
}

impl PatchFilePriorityRequest {
    /// Accepts at most [`MAX_PATHS`] paths of at most
    /// [`MAX_REQUEST_PATH_DEPTH`] components of at most
    /// [`MAX_REQUEST_COMPONENT_LENGTH`] bytes each, with a known priority.
    pub fn validate(&self) -> (r: Result<(), OrcError>)
        ensures
            r == checked(priority_request_fault(*self)),
    {
        if self.paths.len() > MAX_PATHS {
            return Err(OrcError::InvalidInput(InputError::TooManyPaths));
        }
        if !is_valid_priority(self.priority.as_str()) {
            return Err(OrcError::InvalidInput(InputError::InvalidPriority));
        }
        let mut i: usize = 0;
        while i < self.paths.len()
            invariant
                i <= self.paths.len(),
                self.paths.len() <= MAX_PATHS,
                valid_priority(self.priority@),
                paths_fault(self.paths@, 0) == paths_fault(self.paths@, i as int),
            decreases self.paths.len() - i,
        {
            let path = &self.paths[i];
            if path.len() > MAX_REQUEST_PATH_DEPTH {
                return Err(OrcError::InvalidInput(InputError::PathTooDeep));
            }
            let mut j: usize = 0;
            while j < path.len()
                invariant
                    j <= path.len(),
                    i < self.paths.len(),
                    self.paths.len() <= MAX_PATHS,
                    valid_priority(self.priority@),
                    path@ == self.paths@[i as int]@,
                    path.len() <= MAX_REQUEST_PATH_DEPTH,
                    paths_fault(self.paths@, 0) == paths_fault(self.paths@, i as int),
                    first_long_component(path@, 0) == first_long_component(path@, j as int),
                decreases path.len() - j,
            {
                if str_len(path[j].as_str()) > MAX_REQUEST_COMPONENT_LENGTH {
                    return Err(OrcError::InvalidInput(InputError::PathComponentTooLong));
                }
                j += 1;
            }
            i += 1;
        }
        Ok(())
    }
}

/// A request to change the kill switch; what is `None` stays as it is.
#[derive(Debug, Clone, Copy)]
pub struct PatchKillSwitchRequest {
    pub enabled: Option<bool>,
    pub scope: Option<KillSwitchScope>,
    pub grace_period_sec: Option<u64>,
    pub triggers: Option<KillSwitchTriggers>,
}

impl PatchKillSwitchRequest {
    /// Accepts a grace period of at most [`MAX_GRACE_PERIOD`] seconds.
    pub fn validate(&self) -> (r: Result<(), OrcError>)
        ensures
            r == if self.grace_period_sec is Some && self.grace_period_sec->0 > MAX_GRACE_PERIOD {
                Err::<(), _>(OrcError::InvalidInput(InputError::GracePeriodTooLong))
            } else {
                Ok(())
            },
    {
        if let Some(gp) = self.grace_period_sec {
            if gp > MAX_GRACE_PERIOD {
                return Err(OrcError::InvalidInput(InputError::GracePeriodTooLong));
            }
        }
        Ok(())
    }
}

/// A request to replace the desired policy.
#[derive(Debug, Clone, Copy)]
pub struct PatchPolicyRequest {
    pub desired_patch: DesiredPolicy,
}

impl DesiredPolicy {
    /// Every desired policy is acceptable as it stands.
    pub fn validate(&self) -> (r: Result<(), OrcError>)
        ensures
            r == Ok::<(), OrcError>(()),
    {
        Ok(())
    }
}

} // verus!
