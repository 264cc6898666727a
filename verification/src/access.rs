//! What scripts may do with files and addresses: the checks that stand
//! before a file is touched or an address is fetched.

use vstd::prelude::*;
use crate::text::{concat3, contains_char, ends_with};
use crate::vsys::error::{decimal, int_text};
use crate::vsys::path::{parent, path_parent, path_same, same};
use crate::vsys::permissions::BlackOrWhiteList;

verus! {

/// Whether one of the entries with a `*` is, without its last character,
/// the directory `dir`.
pub open spec fn directory_listed(items: Seq<Seq<char>>, dir: Seq<char>) -> bool {
    exists|i: int|
        0 <= i < items.len() && (#[trigger] items[i]).contains('*') && path_same(
            items[i].drop_last(),
            dir,
        )
}

/// Whether one of the entries without a `*` is the path `path`.
pub open spec fn file_listed(items: Seq<Seq<char>>, path: Seq<char>) -> bool {
    exists|i: int|
        0 <= i < items.len() && !(#[trigger] items[i]).contains('*') && path_same(items[i], path)
}

/// Whether the list lets a script touch the file at `path`. The path and
/// the entries of the list are taken as they stand: resolving them against
/// the filesystem is the caller's part. A path inside a directory is judged
/// by the entries with a `*`: it is listed where one of them names that
/// directory. A path without a directory above it is judged by the other
/// entries.
pub fn check_could_access(list: &BlackOrWhiteList, path: &str) -> (r: bool)
    ensures
        r == list.verdict(
            match path_parent(path@) {
                Some(dir) => directory_listed(list.items(), dir),
                None => file_listed(list.items(), path@),
            },
        ),
{
    let (white_list, items) = match list {
        BlackOrWhiteList::BlackList(items) => (false, items),
        BlackOrWhiteList::WhiteList(items) => (true, items),
    };
    let dir = parent(path);
    let mut found = false;
    let mut i: usize = 0;
    while i < items.len()
        invariant
            0 <= i <= items.len(),
            items.deep_view() == list.items(),
            dir.deep_view() == path_parent(path@),
            found == match dir.deep_view() {
                Some(d) => exists|j: int|
                    0 <= j < i && (#[trigger] list.items()[j]).contains('*') && path_same(
                        list.items()[j].drop_last(),
                        d,
                    ),
                None => exists|j: int|
                    0 <= j < i && !(#[trigger] list.items()[j]).contains('*') && path_same(
                        list.items()[j],
                        path@,
                    ),
            },
        decreases items.len() - i,
    {
        let item = items[i].as_str();
        assert(list.items()[i as int] == item@);
        let pattern = contains_char(item, '*');
        match &dir {
            Some(d) => {
                if pattern {
                    let n = item.unicode_len();
                    let base = item.substring_char(0, n - 1);
                    assert(base@ =~= item@.drop_last());
                    if same(base, d.as_str()) {
                        found = true;
                    }
                }
            },
            None => {
                if !pattern && same(item, path) {
                    found = true;
                }
            },
        }
        i = i + 1;
    }
    if white_list {
        found
    } else {
        !found
    }
}

/// The text with which an access is refused on what is known of the file;
/// none where it is granted. Writing (2) is refused on a file that is
/// read-only, executing (1) on a file whose owner may not execute it.
/// Without a mode only the existence of the file is asked for.
pub open spec fn metadata_refusal(mode: Option<u32>, readonly: bool, file_mode: u32) -> Option<
    Seq<char>,
> {
    let asked = match mode {
        Some(m) => m,
        None => 0u32,
    };
    if asked & 2 != 0 && readonly {
        Some("Permission denied. File not writable"@)
    } else if asked & 1 != 0 && file_mode & 0o100 == 0 {
        Some("Permission denied. File not executable"@)
    } else {
        None
    }
}

/// Judges the access `mode` to an existing file from what is known of it.
pub fn verify_metadata(mode: Option<u32>, readonly: bool, file_mode: u32) -> (r: Result<
    (),
    String,
>)
    ensures
        match metadata_refusal(mode, readonly, file_mode) {
            None => r is Ok,
            Some(text) => r matches Err(e) && e@ == text,
        },
{
    let asked: u32 = match mode {
        Some(m) => m,
        None => 0,
    };
    if asked & 2 != 0 && readonly {
        return Err(String::from_str("Permission denied. File not writable"));
    }
    if asked & 1 != 0 && file_mode & 0o100 == 0 {
        return Err(String::from_str("Permission denied. File not executable"));
    }
    Ok(())
}

/// The host and the port of an address.
#[derive(Debug, Clone, PartialEq, Eq)]
pub struct UriParts {
    /// The host; empty where the address has none.
    pub host: String,
    pub port: Option<u16>,
}

impl UriParts {
    /// The port of the address: 80 where it names none.
    pub open spec fn port_or_default(&self) -> u16 {
        match self.port {
            Some(p) => p,
            None => 80u16,
        }
    }
}

/// Whether the entry stands for the address: the host of the address ends
/// with the host of the entry, and the ports are the same.
pub open spec fn entry_matches(entry: UriParts, uri: UriParts) -> bool {
    entry.host@.is_suffix_of(uri.host@) && entry.port_or_default() == uri.port_or_default()
}

/// Whether one of the entries of the list stands for the address.
pub open spec fn url_listed(list: Seq<UriParts>, uri: UriParts) -> bool {
    exists|i: int| 0 <= i < list.len() && entry_matches(#[trigger] list[i], uri)
}

/// Whether one of the entries of the list stands for the address.
pub fn url_match(list: &Vec<UriParts>, uri: &UriParts) -> (r: bool)
    ensures
        r == url_listed(list@, *uri),
{
    let port: u16 = match uri.port {
        Some(p) => p,
        None => 80,
    };
    let mut i: usize = 0;
    while i < list.len()
        invariant
            0 <= i <= list.len(),
            port == uri.port_or_default(),
            forall|j: int| 0 <= j < i ==> !entry_matches(#[trigger] list@[j], *uri),
        decreases list.len() - i,
    {
        let entry_port: u16 = match list[i].port {
            Some(p) => p,
            None => 80,
        };
        if ends_with(uri.host.as_str(), list[i].host.as_str()) && entry_port == port {
            assert(entry_matches(list@[i as int], *uri));
            return true;
        }
        i = i + 1;
    }
    false
}

/// The text that names an address that may not be fetched: the message,
/// the host and, where the address names one, the port.
pub open spec fn restricted_text(message: Seq<char>, uri: UriParts) -> Seq<char> {
    match uri.port {
        Some(p) => message + ": "@ + uri.host@ + ":"@ + decimal(p as int),
        None => message + ": "@ + uri.host@,
    }
}

/// The text that names an address that may not be fetched.
pub fn url_restricted_error(message: &str, uri: &UriParts) -> (r: String)
    ensures
        r@ == restricted_text(message@, *uri),
{
    let mut out = concat3(message, ": ", uri.host.as_str());
    match uri.port {
        Some(p) => {
            let number = int_text(p as i32);
            out.append(":");
            out.append(number.as_str());
        },
        None => {},
    }
    out
}

/// Lets the address be fetched, or refuses it: a black list refuses the
/// addresses that one of its entries stands for, a white list all others.
pub fn ensure_url_access(whitelist: bool, entries: &Vec<UriParts>, uri: &UriParts) -> (r: Result<
    (),
    String,
>)
    ensures
        match r {
            Ok(()) => url_listed(entries@, *uri) == whitelist,
            Err(e) => url_listed(entries@, *uri) != whitelist && e@ == restricted_text(
                if whitelist {
                    "URL not allowed"@
                } else {
                    "URL denied"@
                },
                *uri,
            ),
        },
{
    let listed = url_match(entries, uri);
    if whitelist {
        if !listed {
            return Err(url_restricted_error("URL not allowed", uri));
        }
    } else {
        if listed {
            return Err(url_restricted_error("URL denied", uri));
        }
    }
    Ok(())
}

} // verus!
