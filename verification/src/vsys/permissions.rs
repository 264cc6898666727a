//! Black and white lists for the filesystem, the network and the
//! environment.

use vstd::prelude::*;
use crate::text::{ends_with, starts_with, str_eq};
use crate::vsys::path::{has_prefix, path_has_prefix, path_same, same};

verus! {

/// A list that either names what is refused or names what is allowed.
#[derive(Debug, PartialEq, Clone, Hash, Eq)]
pub enum BlackOrWhiteList {
    /// Everything is allowed but what the list names.
    BlackList(Vec<String>),
    /// Nothing is allowed but what the list names.
    WhiteList(Vec<String>),
}

/// Whether the list entry `item` stands for `host`: an entry `*.domain`
/// stands for the domain and everything that ends in `.domain`, any other
/// entry for itself.
pub open spec fn host_matches(item: Seq<char>, host: Seq<char>) -> bool {
    if "*."@.is_prefix_of(item) {
        item.skip(1).is_suffix_of(host) || host == item.skip(2)
    } else {
        item == host
    }
}

/// Whether one of the entries stands for `host`.
pub open spec fn host_listed(items: Seq<Seq<char>>, host: Seq<char>) -> bool {
    exists|i: int| 0 <= i < items.len() && host_matches(#[trigger] items[i], host)
}

/// Whether the list entry `item` is a directory pattern, written with a
/// trailing `*`.
pub open spec fn is_pattern(item: Seq<char>) -> bool {
    "*"@.is_suffix_of(item)
}

/// Whether one of the directory patterns among the entries lies above
/// `path`.
pub open spec fn pattern_listed(items: Seq<Seq<char>>, path: Seq<char>) -> bool {
    exists|i: int|
        0 <= i < items.len() && is_pattern(#[trigger] items[i]) && path_has_prefix(
            path,
            items[i].drop_last(),
        )
}

/// Whether one of the entries that are no patterns is `path`.
pub open spec fn path_listed(items: Seq<Seq<char>>, path: Seq<char>) -> bool {
    exists|i: int| 0 <= i < items.len() && !is_pattern(#[trigger] items[i]) && path_same(items[i], path)
}

impl BlackOrWhiteList {
    /// The entries of the list.
    pub open spec fn items(&self) -> Seq<Seq<char>> {
        match self {
            BlackOrWhiteList::BlackList(items) => items.deep_view(),
            BlackOrWhiteList::WhiteList(items) => items.deep_view(),
        }
    }

    /// Whether the list names what is allowed.
    pub open spec fn is_whitelist(&self) -> bool {
        self is WhiteList
    }

    /// Whether something is allowed, given whether the list names it.
    pub open spec fn verdict(&self, listed: bool) -> bool {
        listed == self.is_whitelist()
    }

    /// A list of what is refused.
    pub fn blacklist(items: Vec<String>) -> (r: Self)
        ensures
            r == BlackOrWhiteList::BlackList(items),
    {
        BlackOrWhiteList::BlackList(items)
    }

    /// A list of what is allowed.
    pub fn whitelist(items: Vec<String>) -> (r: Self)
        ensures
            r == BlackOrWhiteList::WhiteList(items),
    {
        BlackOrWhiteList::WhiteList(items)
    }

    /// The list that refuses nothing.
    pub fn allow_all() -> (r: Self)
        ensures
            !r.is_whitelist(),
            r.items().len() == 0,
    {
        BlackOrWhiteList::BlackList(Vec::new())
    }

    /// The list that allows nothing.
    pub fn deny_all() -> (r: Self)
        ensures
            r.is_whitelist(),
            r.items().len() == 0,
    {
        BlackOrWhiteList::WhiteList(Vec::new())
    }

    /// The entries and the kind of the list.
    fn parts(&self) -> (r: (bool, &Vec<String>))
        ensures
            r.0 == self.is_whitelist(),
            r.1.deep_view() == self.items(),
    {
        match self {
            BlackOrWhiteList::BlackList(items) => (false, items),
            BlackOrWhiteList::WhiteList(items) => (true, items),
        }
    }

    /// Whether access to `path` is allowed. The path and the entries of the
    /// list are taken as they stand: resolving them against the filesystem
    /// is the caller's part. The directory patterns decide first: a path
    /// below one of them is allowed by a white list and refused by a black
    /// list. Otherwise a white list allows the paths it names and a black
    /// list all others.
    pub fn check_path(&self, path: &str) -> (r: bool)
        ensures
            r == (if pattern_listed(self.items(), path@) {
                self.is_whitelist()
            } else {
                self.verdict(path_listed(self.items(), path@))
            }),
    {
        let (is_whitelist, items) = self.parts();
        let mut i: usize = 0;
        while i < items.len()
            invariant
                0 <= i <= items.len(),
                is_whitelist == self.is_whitelist(),
                items.deep_view() == self.items(),
                forall|j: int|
                    0 <= j < i ==> !(is_pattern(#[trigger] self.items()[j]) && path_has_prefix(
                        path@,
                        self.items()[j].drop_last(),
                    )),
            decreases items.len() - i,
        {
            assert(self.items()[i as int] == items@[i as int]@);
            if ends_with(items[i].as_str(), "*") {
                let n = items[i].as_str().unicode_len();
                proof {
                    reveal_strlit("*");
                }
                let base = items[i].as_str().substring_char(0, n - 1);
                assert(base@ =~= items@[i as int]@.drop_last());
                if has_prefix(path, base) {
                    assert(is_pattern(self.items()[i as int]) && path_has_prefix(
                        path@,
                        self.items()[i as int].drop_last(),
                    ));
                    return is_whitelist;
                }
            }
            i = i + 1;
        }
        assert(!pattern_listed(self.items(), path@));
        let mut found = false;
        let mut k: usize = 0;
        while k < items.len()
            invariant
                0 <= k <= items.len(),
                items.deep_view() == self.items(),
                !pattern_listed(self.items(), path@),
                found == exists|j: int|
                    0 <= j < k && !is_pattern(#[trigger] self.items()[j]) && path_same(
                        self.items()[j],
                        path@,
                    ),
            decreases items.len() - k,
        {
            assert(self.items()[k as int] == items@[k as int]@);
            if !ends_with(items[k].as_str(), "*") && same(items[k].as_str(), path) {
                found = true;
            }
            k = k + 1;
        }
        if is_whitelist {
            found
        } else {
            !found
        }
    }

    /// Whether access to a path is allowed, given what resolving it
    /// against the filesystem gave: a path that could not be resolved is
    /// refused, whatever the list; a resolved path is judged by
    /// [`BlackOrWhiteList::check_path`].
    pub fn check_canonical(&self, canonical: Option<&str>) -> (r: bool)
        ensures
            r == match canonical {
                None => false,
                Some(path) => if pattern_listed(self.items(), path@) {
                    self.is_whitelist()
                } else {
                    self.verdict(path_listed(self.items(), path@))
                },
            },
    {
        match canonical {
            None => false,
            Some(path) => self.check_path(path),
        }
    }

    /// The entry `item` as it counts once it was resolved against the
    /// filesystem. `canonical` is the resolved form of the entry, for a
    /// directory pattern that of the entry without its `*`; where it could not
    /// be resolved the entry counts as it stands.
    pub fn resolved_entry(item: &str, canonical: Option<&str>) -> (r: String)
        ensures
            r@ == match canonical {
                None => item@,
                Some(path) => if is_pattern(item@) {
                    path@ + "*"@
                } else {
                    path@
                },
            },
    {
        match canonical {
            None => String::from_str(item),
            Some(path) => if ends_with(item, "*") {
                crate::text::concat(path, "*")
            } else {
                String::from_str(path)
            },
        }
    }

    /// Whether access to `host` is allowed: a white list allows the hosts
    /// that one of its entries stands for, a black list all others.
    pub fn check_host(&self, host: &str) -> (r: bool)
        ensures
            r == self.verdict(host_listed(self.items(), host@)),
    {
        let (is_whitelist, items) = self.parts();
        let mut i: usize = 0;
        while i < items.len()
            invariant
                0 <= i <= items.len(),
                is_whitelist == self.is_whitelist(),
                items.deep_view() == self.items(),
                forall|j: int| 0 <= j < i ==> !host_matches(#[trigger] self.items()[j], host@),
            decreases items.len() - i,
        {
            let item = items[i].as_str();
            assert(self.items()[i as int] == item@);
            if starts_with(item, "*.") {
                let n = item.unicode_len();
                proof {
                    reveal_strlit("*.");
                }
                let suffix = item.substring_char(1, n);
                let domain = item.substring_char(2, n);
                assert(suffix@ =~= item@.skip(1));
                assert(domain@ =~= item@.skip(2));
                if ends_with(host, suffix) || str_eq(host, domain) {
                    assert(host_matches(self.items()[i as int], host@));
                    return is_whitelist;
                }
            } else if str_eq(item, host) {
                assert(host_matches(self.items()[i as int], host@));
                return is_whitelist;
            }
            i = i + 1;
        }
        !is_whitelist
    }

    /// Whether the list names `name` itself.
    pub fn check_name(&self, name: &str) -> (r: bool)
        ensures
            r == self.verdict(self.items().contains(name@)),
    {
        let (is_whitelist, items) = self.parts();
        let mut found = false;
        let mut i: usize = 0;
        while i < items.len()
            invariant
                0 <= i <= items.len(),
                items.deep_view() == self.items(),
                found == exists|j: int| 0 <= j < i && self.items()[j] == name@,
            decreases items.len() - i,
        {
            assert(self.items()[i as int] == items@[i as int]@);
            if str_eq(items[i].as_str(), name) {
                found = true;
            }
            i = i + 1;
        }
        if is_whitelist {
            found
        } else {
            !found
        }
    }
}

impl Default for BlackOrWhiteList {
    /// The list that allows nothing.
    fn default() -> (r: Self)
        ensures
            r.is_whitelist(),
            r.items().len() == 0,
    {
        BlackOrWhiteList::WhiteList(Vec::new())
    }
}

/// What the runtime may touch. By default nothing.
#[derive(Debug, Clone)]
pub struct Permissions {
    pub fs: BlackOrWhiteList,
    pub net: BlackOrWhiteList,
    pub env: BlackOrWhiteList,
    /// Whether the standard streams may be used.
    pub stdio: bool,
}

impl Permissions {
    /// Permissions that refuse nothing.
    pub fn allow_all() -> (r: Self)
        ensures
            r.stdio,
            !r.fs.is_whitelist() && r.fs.items().len() == 0,
            !r.net.is_whitelist() && r.net.items().len() == 0,
            !r.env.is_whitelist() && r.env.items().len() == 0,
    {
        Permissions {
            fs: BlackOrWhiteList::allow_all(),
            net: BlackOrWhiteList::allow_all(),
            env: BlackOrWhiteList::allow_all(),
            stdio: true,
        }
    }

    /// Permissions that allow nothing.
    pub fn deny_all() -> (r: Self)
        ensures
            !r.stdio,
            r.fs.is_whitelist() && r.fs.items().len() == 0,
            r.net.is_whitelist() && r.net.items().len() == 0,
            r.env.is_whitelist() && r.env.items().len() == 0,
    {
        Permissions {
            fs: BlackOrWhiteList::deny_all(),
            net: BlackOrWhiteList::deny_all(),
            env: BlackOrWhiteList::deny_all(),
            stdio: false,
        }
    }

    /// Whether the filesystem list allows `path`.
    pub fn check_fs(&self, path: &str) -> (r: bool)
        ensures
            r == (if pattern_listed(self.fs.items(), path@) {
                self.fs.is_whitelist()
            } else {
                self.fs.verdict(path_listed(self.fs.items(), path@))
            }),
    {
        self.fs.check_path(path)
    }

    /// Whether the network list allows `host`.
    pub fn check_net(&self, host: &str) -> (r: bool)
        ensures
            r == self.net.verdict(host_listed(self.net.items(), host@)),
    {
        self.net.check_host(host)
    }

    /// Whether the environment list allows the variable `var_name`: a white
    /// list allows the names it holds, a black list all others.
    pub fn check_env(&self, var_name: &str) -> (r: bool)
        ensures
            r == self.env.verdict(self.env.items().contains(var_name@)),
    {
        self.env.check_name(var_name)
    }
}

impl Default for Permissions {
    /// Permissions that allow nothing.
    fn default() -> (r: Self)
        ensures
            !r.stdio,
            r.fs.is_whitelist() && r.fs.items().len() == 0,
            r.net.is_whitelist() && r.net.items().len() == 0,
            r.env.is_whitelist() && r.env.items().len() == 0,
    {
        Permissions::deny_all()
    }
}

} // verus!
