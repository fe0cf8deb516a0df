//! What is read out of a torrent file: its info-hash and its trackers.

use crate::bencode::{decode, dict_view, get_bytes, get_dict_value, get_int, lemma_decode_advances, lemma_dict_view, lemma_list_view, list_view, lookup, parse_bencode, parse_bencode_with_depth, BVal, BValue};
use crate::digest::{
    hex_encode, hex_lower, lemma_hex_lower_shape, lower_hex_char, sha1_digest, sha1_of,
};
use crate::error::{InputError, OrcError};
use crate::model::{files_view, FileView, TorrentFileEntry};
use crate::trackers::plus;
use crate::text::{
    blank, decode_lossy, find_bytes, find_from, is_blank, lemma_find_from, texts,
    utf8_lossy,
};
use vstd::prelude::*;
use vstd::slice::*;
use vstd::string::*;

verus! {

/// The index range of the `info` dictionary: it starts right behind the
/// first occurrence of the key `4:info` and runs to the end of the
/// dictionary that starts there.
pub open spec fn info_span(bytes: Seq<u8>) -> Option<(int, int)> {
    match find_from(bytes, "4:info".spec_bytes(), 0) {
        None => None,
        Some(at) => {
            let start = at + "4:info".spec_bytes().len();
            if start < bytes.len() && bytes[start] == 0x64 {
                match decode(bytes, start, 1) {
                    Ok((_, end)) => Some((start, end)),
                    Err(_) => None,
                }
            } else {
                None
            }
        },
    }
}

/// The info-hash of a torrent file: the SHA-1 digest of the bytes of its
/// `info` dictionary, as 40 lower-case hexadecimal digits.
pub open spec fn info_hash_of(bytes: Seq<u8>) -> Option<Seq<char>> {
    match info_span(bytes) {
        Some((start, end)) => Some(hex_lower(sha1_digest(bytes.subrange(start, end)))),
        None => None,
    }
}

/// The text of an optional string.
pub open spec fn text_of(s: Option<String>) -> Option<Seq<char>> {
    match s {
        Some(t) => Some(t@),
        None => None,
    }
}

/// Computes the info-hash of a torrent file from the raw bytes of its
/// `info` dictionary. There is none where the file holds no `4:info` key or
/// where no well-formed dictionary follows it.
pub fn extract_info_hash_from_torrent_bytes(bytes: &[u8]) -> (r: Result<Option<String>, OrcError>)
    ensures
        r matches Ok(found) && text_of(found) == info_hash_of(bytes@),
        r matches Ok(Some(hash)) ==> hash@.len() == 40 && forall|i: int|
            0 <= i < hash@.len() ==> lower_hex_char(#[trigger] hash@[i]),
{
    let marker = "4:info".as_bytes();
    let at = match find_bytes(bytes, marker, 0) {
        Some(at) => at,
        None => { return Ok(None); },
    };
    proof {
        lemma_find_from(bytes@, marker@, 0);
    }
    let width = marker.len();
    assert(at + width <= bytes.len());
    let start = at + width;
    if start >= bytes.len() || bytes[start] != 0x64 {
        return Ok(None);
    }
    let end = match parse_bencode_with_depth(bytes, start, 1) {
        Ok((_, end)) => end,
        Err(_) => { return Ok(None); },
    };
    proof {
        lemma_decode_advances(bytes@, start as int, 1);
    }
    let digest = sha1_of(slice_subrange(bytes, start, end));
    proof {
        lemma_hex_lower_shape(digest@);
    }
    Ok(Some(hex_encode(digest.as_slice())))
}

/// A tracker URL read from a byte string: its text, unless it is blank.
pub open spec fn tracker_text(b: Seq<u8>) -> Seq<Seq<char>> {
    if blank(utf8_lossy(b)) {
        Seq::empty()
    } else {
        seq![utf8_lossy(b)]
    }
}

/// The tracker URLs among the items of one tier, in order.
pub open spec fn urls_trackers(urls: Seq<BValue>) -> Seq<Seq<char>>
    decreases urls.len(),
{
    if urls.len() == 0 {
        Seq::empty()
    } else {
        urls_trackers(urls.drop_last()) + (match urls.last() {
            BValue::Bytes(b) => tracker_text(b),
            _ => Seq::empty(),
        })
    }
}

/// The tracker URLs of one entry of `announce-list`: those of a list of
/// byte strings, or that of a single byte string.
pub open spec fn tier_trackers(tier: BValue) -> Seq<Seq<char>> {
    match tier {
        BValue::List(urls) => urls_trackers(urls),
        BValue::Bytes(b) => tracker_text(b),
        _ => Seq::empty(),
    }
}

/// The tracker URLs of all tiers, in order.
pub open spec fn tiers_trackers(tiers: Seq<BValue>) -> Seq<Seq<char>>
    decreases tiers.len(),
{
    if tiers.len() == 0 {
        Seq::empty()
    } else {
        tiers_trackers(tiers.drop_last()) + tier_trackers(tiers.last())
    }
}

/// The tracker URLs of a decoded torrent file: `announce`, then every URL
/// of `announce-list`.
pub open spec fn trackers_of(root: BValue) -> Seq<Seq<char>> {
    match root {
        BValue::Dict(entries) => (match lookup(entries, "announce".spec_bytes()) {
            Some(BValue::Bytes(a)) => tracker_text(a),
            _ => Seq::empty(),
        }) + (match lookup(entries, "announce-list".spec_bytes()) {
            Some(BValue::List(tiers)) => tiers_trackers(tiers),
            _ => Seq::empty(),
        }),
        _ => Seq::empty(),
    }
}

/// The tracker URLs of a torrent file; none where it cannot be decoded.
pub open spec fn torrent_trackers(bytes: Seq<u8>) -> Seq<Seq<char>> {
    match decode(bytes, 0, 0) {
        Ok((root, _)) => trackers_of(root),
        Err(_) => Seq::empty(),
    }
}

/// Appends the tracker URL held by a byte string, unless it is blank.
fn push_tracker(out: &mut Vec<String>, b: &Vec<u8>)
    ensures
        texts(final(out)@) == texts(old(out)@) + tracker_text(b@),
{
    let s = decode_lossy(b.as_slice());
    if !is_blank(s.as_str()) {
        out.push(s);
    }
}

/// Appends the tracker URLs of one tier.
fn push_tier(out: &mut Vec<String>, tier: &BVal)
    ensures
        texts(final(out)@) == texts(old(out)@) + tier_trackers(tier@),
{
    match tier {
        BVal::List(urls) => {
            proof {
                lemma_list_view(*urls);
            }
            let ghost all = list_view(urls@);
            let mut i: usize = 0;
            while i < urls.len()
                invariant
                    i <= urls.len(),
                    all == list_view(urls@),
                    texts(out@) == texts(old(out)@) + urls_trackers(all.take(i as int)),
                decreases urls.len() - i,
            {
                proof {
                    assert(all.take(i + 1).drop_last() =~= all.take(i as int));
                }
                match &urls[i] {
                    BVal::Bytes(b) => {
                        push_tracker(out, b);
                    },
                    _ => {},
                }
                i += 1;
            }
            assert(all.take(urls.len() as int) =~= all);
        },
        BVal::Bytes(b) => {
            push_tracker(out, b);
        },
        _ => {},
    }
}

/// Reads the tracker URLs out of a torrent file: `announce` first, then
/// every URL of `announce-list`, blank ones left out. A file that cannot be
/// decoded has none.
pub fn parse_trackers_from_torrent_bytes(bytes: &[u8]) -> (out: Vec<String>)
    ensures
        texts(out@) == torrent_trackers(bytes@),
{
    let mut out: Vec<String> = Vec::new();
    let root = match parse_bencode(bytes, 0) {
        Ok((root, _)) => root,
        Err(_) => { return out; },
    };
    match &root {
        BVal::Dict(entries) => {
            proof {
                lemma_dict_view(*entries);
            }
            match get_dict_value(entries.as_slice(), "announce".as_bytes()) {
                Some(BVal::Bytes(a)) => {
                    push_tracker(&mut out, a);
                },
                _ => {},
            }
            let ghost first = texts(out@);
            match get_dict_value(entries.as_slice(), "announce-list".as_bytes()) {
                Some(BVal::List(tiers)) => {
                    proof {
                        lemma_list_view(*tiers);
                    }
                    let ghost all = list_view(tiers@);
                    let mut i: usize = 0;
                    while i < tiers.len()
                        invariant
                            i <= tiers.len(),
                            all == list_view(tiers@),
                            texts(out@) == first + tiers_trackers(all.take(i as int)),
                        decreases tiers.len() - i,
                    {
                        proof {
                            assert(all.take(i + 1).drop_last() =~= all.take(i as int));
                        }
                        push_tier(&mut out, &tiers[i]);
                        i += 1;
                    }
                    assert(all.take(tiers.len() as int) =~= all);
                },
                _ => {},
            }
        },
        _ => {},
    }
    out
}

/// What a torrent file says of its content.
#[derive(Debug)]
pub struct TorrentMeta {
    pub name: Option<String>,
    pub total_bytes: u64,
    pub files: Vec<TorrentFileEntry>,
}

/// The size that an integer stands for: a negative one counts as 0.
pub open spec fn size_of(n: int) -> u64 {
    if n < 0 {
        0
    } else if n > u64::MAX {
        u64::MAX
    } else {
        n as u64
    }
}

/// The byte string under the first of `name.utf-8` and `name` that holds
/// one.
pub open spec fn info_name(info: Seq<(Seq<u8>, BValue)>) -> Option<Seq<u8>> {
    match lookup(info, "name.utf-8".spec_bytes()) {
        Some(BValue::Bytes(b)) => Some(b),
        _ => match lookup(info, "name".spec_bytes()) {
            Some(BValue::Bytes(b)) => Some(b),
            _ => None,
        },
    }
}

/// The texts of the byte strings among the parts of a path, in order.
pub open spec fn path_parts(parts: Seq<BValue>) -> Seq<Seq<char>>
    decreases parts.len(),
{
    if parts.len() == 0 {
        Seq::empty()
    } else {
        path_parts(parts.drop_last()) + (match parts.last() {
            BValue::Bytes(b) => seq![utf8_lossy(b)],
            _ => Seq::empty(),
        })
    }
}

/// The path of one file of a torrent with several files: the parts under
/// `path.utf-8` or else `path`, or the single part `file` where there are
/// none.
pub open spec fn file_path(fd: Seq<(Seq<u8>, BValue)>) -> Seq<Seq<char>> {
    let listed = match lookup(fd, "path.utf-8".spec_bytes()) {
        Some(v) => Some(v),
        None => lookup(fd, "path".spec_bytes()),
    };
    let parts = match listed {
        Some(BValue::List(parts)) => path_parts(parts),
        _ => Seq::empty(),
    };
    if parts.len() == 0 {
        seq!["file"@]
    } else {
        parts
    }
}

/// The size of one file of a torrent with several files.
pub open spec fn file_size(fd: Seq<(Seq<u8>, BValue)>) -> u64 {
    match lookup(fd, "length".spec_bytes()) {
        Some(BValue::Int(n)) => size_of(n),
        _ => 0,
    }
}

/// The entries of the files that are listed as dictionaries, in order.
pub open spec fn listed_files(files: Seq<BValue>) -> Seq<FileView>
    decreases files.len(),
{
    if files.len() == 0 {
        Seq::empty()
    } else {
        listed_files(files.drop_last()) + (match files.last() {
            BValue::Dict(fd) => seq![
                FileView {
                    path: file_path(fd),
                    size: file_size(fd),
                    priority: "normal"@,
                    downloaded: false,
                },
            ],
            _ => Seq::empty(),
        })
    }
}

/// The sizes of all files together, capped at `u64::MAX`.
pub open spec fn files_total(files: Seq<FileView>) -> u64
    decreases files.len(),
{
    if files.len() == 0 {
        0
    } else {
        plus(files_total(files.drop_last()), files.last().size)
    }
}

/// The files of a torrent: the single file of a torrent with a `length`,
/// named like the torrent, or the files that are listed under `files`.
pub open spec fn info_files(info: Seq<(Seq<u8>, BValue)>) -> Seq<FileView> {
    match lookup(info, "length".spec_bytes()) {
        Some(BValue::Int(n)) => seq![
            FileView {
                path: seq![
                    match info_name(info) {
                        Some(b) => utf8_lossy(b),
                        None => "file"@,
                    },
                ],
                size: size_of(n),
                priority: "normal"@,
                downloaded: false,
            },
        ],
        _ => match lookup(info, "files".spec_bytes()) {
            Some(BValue::List(files)) => listed_files(files),
            _ => Seq::empty(),
        },
    }
}

/// The `info` dictionary of a torrent file, or the reason why there is
/// none.
pub open spec fn info_dict(bytes: Seq<u8>) -> Result<Seq<(Seq<u8>, BValue)>, OrcError> {
    match decode(bytes, 0, 0) {
        Err(e) => Err(OrcError::DecodeFailure(e)),
        Ok((BValue::Dict(root), _)) => match lookup(root, "info".spec_bytes()) {
            Some(BValue::Dict(info)) => Ok(info),
            _ => Err(OrcError::InvalidInput(InputError::MissingInfoDict)),
        },
        Ok(_) => Err(OrcError::InvalidInput(InputError::RootNotDict)),
    }
}

/// Whether `meta` holds what the `info` dictionary says: the name, the
/// files and the size of all files together.
pub open spec fn is_meta(meta: TorrentMeta, info: Seq<(Seq<u8>, BValue)>) -> bool {
    &&& text_of(meta.name) == (match info_name(info) {
        Some(b) => Some(utf8_lossy(b)),
        None => None,
    })
    &&& files_view(meta.files@) == info_files(info)
    &&& meta.total_bytes == files_total(info_files(info))
}

/// The size that an integer of a torrent file stands for.
fn to_size(n: i64) -> (r: u64)
    ensures
        r == size_of(n as int),
{
    if n < 0 {
        0
    } else {
        n as u64
    }
}

/// Reads the path of one file.
fn read_file_path(fd: &Vec<(Vec<u8>, BVal)>) -> (path: Vec<String>)
    ensures
        texts(path@) == file_path(dict_view(fd@)),
{
    let listed = match get_dict_value(fd.as_slice(), "path.utf-8".as_bytes()) {
        Some(v) => Some(v),
        None => get_dict_value(fd.as_slice(), "path".as_bytes()),
    };
    let mut path: Vec<String> = Vec::new();
    match listed {
        Some(BVal::List(parts)) => {
            proof {
                lemma_list_view(*parts);
            }
            let ghost all = list_view(parts@);
            let mut i: usize = 0;
            while i < parts.len()
                invariant
                    i <= parts.len(),
                    all == list_view(parts@),
                    texts(path@) == path_parts(all.take(i as int)),
                decreases parts.len() - i,
            {
                proof {
                    assert(all.take(i + 1).drop_last() =~= all.take(i as int));
                }
                match &parts[i] {
                    BVal::Bytes(b) => {
                        path.push(decode_lossy(b.as_slice()));
                    },
                    _ => {},
                }
                i += 1;
            }
            assert(all.take(parts.len() as int) =~= all);
        },
        _ => {},
    }
    if path.len() == 0 {
        path.push("file".to_owned());
    }
    path
}

/// Reads what a torrent file says of its content: its name, its files and
/// their size. A torrent that names a `length` has one file; any other has
/// the files that it lists.
pub fn parse_torrent_metainfo(bytes: &[u8]) -> (r: Result<TorrentMeta, OrcError>)
    ensures
        match r {
            Ok(meta) => info_dict(bytes@) is Ok && is_meta(meta, info_dict(bytes@)->Ok_0),
            Err(e) => info_dict(bytes@) == Err::<Seq<(Seq<u8>, BValue)>, _>(e),
        },
{
    let root = match parse_bencode(bytes, 0) {
        Ok((root, _)) => root,
        Err(e) => {
            return Err(OrcError::DecodeFailure(e));
        },
    };
    let entries = match &root {
        BVal::Dict(d) => d,
        _ => {
            return Err(OrcError::InvalidInput(InputError::RootNotDict));
        },
    };
    proof {
        lemma_dict_view(*entries);
    }
    let info = match get_dict_value(entries.as_slice(), "info".as_bytes()) {
        Some(BVal::Dict(d)) => d,
        _ => {
            return Err(OrcError::InvalidInput(InputError::MissingInfoDict));
        },
    };
    proof {
        lemma_dict_view(*info);
    }
    let ghost iv = dict_view(info@);
    let name_bytes = match get_bytes(info.as_slice(), "name.utf-8".as_bytes()) {
        Some(b) => Some(b),
        None => get_bytes(info.as_slice(), "name".as_bytes()),
    };
    let name = match &name_bytes {
        Some(b) => Some(decode_lossy(b.as_slice())),
        None => None,
    };
    let mut files: Vec<TorrentFileEntry> = Vec::new();
    let mut total: u64 = 0;
    match get_int(info.as_slice(), "length".as_bytes()) {
        Some(len) => {
            let size = to_size(len);
            let first = match &name {
                Some(n) => n.clone(),
                None => "file".to_owned(),
            };
            let mut path: Vec<String> = Vec::new();
            path.push(first);
            let entry = TorrentFileEntry {
                path,
                size,
                priority: "normal".to_owned(),
                downloaded: false,
            };
            proof {
                assert(texts(entry.path@) =~= seq![
                    match info_name(iv) {
                        Some(b) => utf8_lossy(b),
                        None => "file"@,
                    },
                ]);
            }
            let ghost made = entry@;
            files.push(entry);
            total = size;
            proof {
                assert(files_view(files@) =~= info_files(iv));
                assert(info_files(iv).drop_last() =~= Seq::<FileView>::empty());
                assert(files_total(Seq::<FileView>::empty()) == 0);
            }
        },
        None => {
            match get_dict_value(info.as_slice(), "files".as_bytes()) {
                Some(BVal::List(list)) => {
                    proof {
                        lemma_list_view(*list);
                    }
                    let ghost all = list_view(list@);
                    let mut i: usize = 0;
                    while i < list.len()
                        invariant
                            i <= list.len(),
                            all == list_view(list@),
                            files_view(files@) == listed_files(all.take(i as int)),
                            total == files_total(listed_files(all.take(i as int))),
                        decreases list.len() - i,
                    {
                        let ghost before = files_view(files@);
                        proof {
                            assert(all.take(i + 1).drop_last() =~= all.take(i as int));
                        }
                        match &list[i] {
                            BVal::Dict(fd) => {
                                proof {
                                    lemma_dict_view(*fd);
                                }
                                let len = match get_int(fd.as_slice(), "length".as_bytes()) {
                                    Some(n) => to_size(n),
                                    None => 0,
                                };
                                let entry = TorrentFileEntry {
                                    path: read_file_path(fd),
                                    size: len,
                                    priority: "normal".to_owned(),
                                    downloaded: false,
                                };
                                let ghost made = entry@;
                                files.push(entry);
                                total = total.saturating_add(len);
                                proof {
                                    assert((before + seq![made]).drop_last() =~= before);
                                }
                            },
                            _ => {},
                        }
                        i += 1;
                    }
                    assert(all.take(list.len() as int) =~= all);
                },
                _ => {
                    assert(files_view(files@) =~= info_files(iv));
                },
            }
        },
    }
    Ok(TorrentMeta { name, total_bytes: total, files })
}

} // verus!
