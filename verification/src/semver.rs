//! Version ranges and version order, as `node_semver` defines them.

use vstd::prelude::*;

verus! {

/// Whether `version`, read as a semantic version, lies in the range that
/// `requirement` denotes. False when either text does not parse.
pub uninterp spec fn semver_satisfies(requirement: Seq<char>, version: Seq<char>) -> bool;

/// Whether both texts parse as semantic versions and the first is the
/// lower one in the order of precedence.
pub uninterp spec fn semver_precedes(lower: Seq<char>, higher: Seq<char>) -> bool;

/// Whether the character is a blank or a tab.
pub open spec fn blank(c: char) -> bool {
    c == ' ' || c == '\t'
}

/// Whether the character stands for "any number" in a range.
pub open spec fn wildcard(c: char) -> bool {
    c == 'x' || c == 'X' || c == '*'
}

/// Whether the character is a decimal digit.
pub open spec fn digit(c: char) -> bool {
    '0' <= c && c <= '9'
}

/// Whether the character `c` stands at position `at` of the text.
pub open spec fn holds_at(s: Seq<char>, at: int, c: char) -> bool {
    0 <= at < s.len() && s[at] == c
}

/// Whether a wildcard stands at position `at` of the text.
pub open spec fn wildcard_at(s: Seq<char>, at: int) -> bool {
    0 <= at < s.len() && wildcard(s[at])
}

/// Whether a digit stands at position `at` of the text.
pub open spec fn digit_at(s: Seq<char>, at: int) -> bool {
    0 <= at < s.len() && digit(s[at])
}

/// The first position from `from` on at which no blank or tab stands.
pub open spec fn skip_blanks(s: Seq<char>, from: int) -> int
    decreases s.len() - from,
{
    if 0 <= from < s.len() && blank(s[from]) {
        skip_blanks(s, from + 1)
    } else {
        from
    }
}

/// The first position from `from` on at which no digit stands.
pub open spec fn skip_digits(s: Seq<char>, from: int) -> int
    decreases s.len() - from,
{
    if 0 <= from < s.len() && digit(s[from]) {
        skip_digits(s, from + 1)
    } else {
        from
    }
}

/// The position behind the character `c` where it stands at `at`, else
/// `at` itself.
pub open spec fn skip_one(s: Seq<char>, at: int, c: char) -> int {
    if holds_at(s, at, c) {
        at + 1
    } else {
        at
    }
}

/// Where the first number of a partial version stands that is read from
/// `from` on: behind a `v` that may lead it and the blanks that may follow.
pub open spec fn major_at(s: Seq<char>, from: int) -> int {
    skip_blanks(s, skip_one(s, from, 'v'))
}

/// Whether a part of a range may begin at position `at`: at the start of
/// the text, behind a blank or a tab, or behind `||`.
pub open spec fn part_start(s: Seq<char>, at: int) -> bool {
    0 <= at < s.len() && (at == 0 || blank(s[at - 1]) || (at >= 2 && s[at - 1] == '|' && s[at - 2]
        == '|'))
}

/// Whether an `=` stands at `at` whose version starts with a wildcard.
pub open spec fn exact_trap(s: Seq<char>, at: int) -> bool {
    holds_at(s, at, '=') && wildcard_at(s, major_at(s, skip_blanks(s, at + 1)))
}

/// Whether a `~` stands at `at` whose version starts with a wildcard, or
/// has a wildcard for its second number and a digit for its third.
pub open spec fn tilde_trap(s: Seq<char>, at: int) -> bool {
    let major = major_at(s, skip_blanks(s, skip_one(s, skip_blanks(s, at + 1), '>')));
    let dot = skip_digits(s, major);
    holds_at(s, at, '~') && (wildcard_at(s, major) || (digit_at(s, major) && holds_at(s, dot, '.')
        && wildcard_at(s, dot + 1) && holds_at(s, dot + 2, '.') && digit_at(s, dot + 3)))
}

/// Whether a part begins at `at` that the parser of `node_semver` does not
/// survive.
pub open spec fn part_trap(s: Seq<char>, at: int) -> bool {
    part_start(s, at) && (exact_trap(s, at) || tilde_trap(s, at))
}

/// Whether the text holds a part that the parser of `node_semver` does not
/// survive: it gives up with a panic, where for any other text it answers
/// with a range or an error. Such a part begins with `=` or `~` where a part
/// may begin, and goes on with a version whose first number is a wildcard (as
/// in `=*` and `~x`) or, behind `~`, whose second number is a wildcard and
/// whose third is none (as in `~1.x.3`).
pub open spec fn trapped(s: Seq<char>) -> bool {
    exists|at: int| part_trap(s, at)
}

/// Whether `version` lies in the range `requirement`. A requirement that
/// the parser does not survive is no range, like one that it rejects.
pub open spec fn in_range(requirement: Seq<char>, version: Seq<char>) -> bool {
    !trapped(requirement) && semver_satisfies(requirement, version)
}

/// Asks `node_semver` whether `version` lies in the range `requirement`:
/// `Range::satisfies` on the parsed texts. The answer depends on the two
/// texts alone; it is false when `Range::parse` or `Version::parse` rejects
/// its text. The requirements on which `Range::parse` panics are left out.
#[verifier::external_body]
pub(crate) fn range_satisfies(requirement: &str, version: &str) -> (r: bool)
    requires
        !trapped(requirement@),
    ensures
        r == semver_satisfies(requirement@, version@),
{
    match (node_semver::Range::parse(requirement), node_semver::Version::parse(version)) {
        (Ok(range), Ok(version)) => range.satisfies(&version),
        _ => false,
    }
}

/// Asks `node_semver` whether `lower` comes before `higher`: `<` on the
/// parsed versions, which is the order of `Version`'s `Ord`. The answer
/// depends on the two texts alone; it is false when `Version::parse` rejects
/// one of them. `Ord` is an order: where `lower` comes before `higher`,
/// `higher` does not come before `lower`, and whatever `higher` comes before,
/// `lower` comes before too.
#[verifier::external_body]
pub(crate) fn version_precedes(lower: &str, higher: &str) -> (r: bool)
    ensures
        r == semver_precedes(lower@, higher@),
        r ==> !semver_precedes(higher@, lower@),
        r ==> forall|other: Seq<char>| #[trigger]
            semver_precedes(higher@, other) ==> semver_precedes(lower@, other),
{
    match (node_semver::Version::parse(lower), node_semver::Version::parse(higher)) {
        (Ok(lower), Ok(higher)) => lower < higher,
        _ => false,
    }
}

/// The first position from `from` on at which no blank or tab stands.
fn blanks_end(s: &str, n: usize, from: usize) -> (r: usize)
    requires
        n == s@.len(),
        from <= n,
    ensures
        r == skip_blanks(s@, from as int),
        from <= r <= n,
{
    let mut at = from;
    while at < n && is_blank(s.get_char(at))
        invariant
            n == s@.len(),
            from <= at <= n,
            skip_blanks(s@, from as int) == skip_blanks(s@, at as int),
        decreases n - at,
    {
        at = at + 1;
    }
    at
}

/// The first position from `from` on at which no digit stands.
fn digits_end(s: &str, n: usize, from: usize) -> (r: usize)
    requires
        n == s@.len(),
        from <= n,
    ensures
        r == skip_digits(s@, from as int),
        from <= r <= n,
{
    let mut at = from;
    while at < n && is_digit(s.get_char(at))
        invariant
            n == s@.len(),
            from <= at <= n,
            skip_digits(s@, from as int) == skip_digits(s@, at as int),
        decreases n - at,
    {
        at = at + 1;
    }
    at
}

fn is_blank(c: char) -> (r: bool)
    ensures
        r == blank(c),
{
    c == ' ' || c == '\t'
}

fn is_wildcard(c: char) -> (r: bool)
    ensures
        r == wildcard(c),
{
    c == 'x' || c == 'X' || c == '*'
}

fn is_digit(c: char) -> (r: bool)
    ensures
        r == digit(c),
{
    '0' <= c && c <= '9'
}

/// Whether the character `c` stands at position `at`.
fn stands_at(s: &str, n: usize, at: usize, c: char) -> (r: bool)
    requires
        n == s@.len(),
    ensures
        r == holds_at(s@, at as int, c),
{
    at < n && s.get_char(at) == c
}

/// The position behind the character `c` where it stands at `at`.
fn one_end(s: &str, n: usize, at: usize, c: char) -> (r: usize)
    requires
        n == s@.len(),
        at <= n,
    ensures
        r == skip_one(s@, at as int, c),
        at <= r <= n,
{
    if stands_at(s, n, at, c) {
        at + 1
    } else {
        at
    }
}

/// Whether a wildcard stands at position `at`.
fn wildcard_stands(s: &str, n: usize, at: usize) -> (r: bool)
    requires
        n == s@.len(),
    ensures
        r == wildcard_at(s@, at as int),
{
    at < n && is_wildcard(s.get_char(at))
}

/// Whether a digit stands at position `at`.
fn digit_stands(s: &str, n: usize, at: usize) -> (r: bool)
    requires
        n == s@.len(),
    ensures
        r == digit_at(s@, at as int),
{
    at < n && is_digit(s.get_char(at))
}

/// Whether a part that the parser does not survive begins at `at`.
fn trap_at(s: &str, n: usize, at: usize) -> (r: bool)
    requires
        n == s@.len(),
        at < n,
    ensures
        r == part_trap(s@, at as int),
{
    let begins = at == 0 || is_blank(s.get_char(at - 1)) || (at >= 2 && s.get_char(at - 1) == '|'
        && s.get_char(at - 2) == '|');
    if !begins {
        return false;
    }
    let c = s.get_char(at);
    if c == '=' {
        let v = blanks_end(s, n, at + 1);
        let major = blanks_end(s, n, one_end(s, n, v, 'v'));
        wildcard_stands(s, n, major)
    } else if c == '~' {
        let gt = blanks_end(s, n, at + 1);
        let v = blanks_end(s, n, one_end(s, n, gt, '>'));
        let major = blanks_end(s, n, one_end(s, n, v, 'v'));
        if wildcard_stands(s, n, major) {
            return true;
        }
        if !digit_stands(s, n, major) {
            return false;
        }
        let dot = digits_end(s, n, major);
        if n - dot <= 3 {
            return false;
        }
        stands_at(s, n, dot, '.') && wildcard_stands(s, n, dot + 1) && stands_at(s, n, dot + 2, '.')
            && digit_stands(s, n, dot + 3)
    } else {
        false
    }
}

/// Whether the parser of `node_semver` can be asked about the
/// requirement: it holds no part on which the parser panics.
pub fn is_parseable(requirement: &str) -> (r: bool)
    ensures
        r == !trapped(requirement@),
{
    let n = requirement.unicode_len();
    let mut at: usize = 0;
    while at < n
        invariant
            n == requirement@.len(),
            0 <= at <= n,
            forall|k: int| 0 <= k < at ==> !part_trap(requirement@, k),
        decreases n - at,
    {
        if trap_at(requirement, n, at) {
            return false;
        }
        at = at + 1;
    }
    true
}

/// Whether `version` lies in the range `requirement`. A requirement that
/// the parser of `node_semver` does not survive is answered with "no"
/// without asking it, as one that the parser rejects is.
pub fn satisfies(requirement: &str, version: &str) -> (r: bool)
    ensures
        r == in_range(requirement@, version@),
{
    is_parseable(requirement) && range_satisfies(requirement, version)
}

/// Whether `lower` comes before `higher` in the order of versions.
pub fn precedes(lower: &str, higher: &str) -> (r: bool)
    ensures
        r == semver_precedes(lower@, higher@),
        r ==> !semver_precedes(higher@, lower@),
        r ==> forall|other: Seq<char>| #[trigger]
            semver_precedes(higher@, other) ==> semver_precedes(lower@, other),
{
    version_precedes(lower, higher)
}

} // verus!
