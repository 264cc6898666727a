//! Text helpers over `str`, stated on sequences of characters.

use vstd::prelude::*;

verus! {

/// `str`'s `==`: true exactly when both slices hold the same characters.
#[verifier::external_body]
pub(crate) fn str_eq(a: &str, b: &str) -> (r: bool)
    ensures
        r == (a@ == b@),
{
    a == b
}

/// `str::contains` with a `char` pattern: whether the character occurs.
#[verifier::external_body]
pub(crate) fn contains_char(s: &str, c: char) -> (r: bool)
    ensures
        r == s@.contains(c),
{
    s.contains(c)
}

/// The two texts, one after the other.
pub fn concat(a: &str, b: &str) -> (r: String)
    ensures
        r@ == a@ + b@,
{
    let mut s = String::from_str(a);
    s.append(b);
    s
}

/// The three texts, one after the other.
pub fn concat3(a: &str, b: &str, c: &str) -> (r: String)
    ensures
        r@ == a@ + b@ + c@,
{
    let mut s = String::from_str(a);
    s.append(b);
    s.append(c);
    s
}

/// The texts of `parts` with `separator` between each two neighbours.
pub open spec fn joined(parts: Seq<Seq<char>>, separator: Seq<char>) -> Seq<char>
    decreases parts.len(),
{
    if parts.len() == 0 {
        Seq::empty()
    } else if parts.len() == 1 {
        parts[0]
    } else {
        joined(parts.drop_last(), separator) + separator + parts.last()
    }
}

/// Joins `parts` with `separator` between each two neighbours.
pub fn join(parts: &Vec<String>, separator: &str) -> (r: String)
    ensures
        r@ == joined(parts.deep_view(), separator@),
{
    let mut out = String::new();
    let mut i: usize = 0;
    while i < parts.len()
        invariant
            0 <= i <= parts.len(),
            out@ == joined(parts.deep_view().take(i as int), separator@),
        decreases parts.len() - i,
    {
        let ghost before = parts.deep_view().take(i as int);
        let ghost after = parts.deep_view().take(i as int + 1);
        assert(after.drop_last() =~= before);
        assert(after.last() == parts@[i as int]@);
        if i > 0 {
            out.append(separator);
        }
        out.append(parts[i].as_str());
        assert(out@ =~= joined(after, separator@)) by {
            if i == 0 {
                assert(before.len() == 0);
                assert(out@ =~= parts@[i as int]@);
            }
        }
        i = i + 1;
    }
    assert(parts.deep_view().take(i as int) =~= parts.deep_view());
    out
}

/// The path `path` with its extension replaced by `extension`, or with
/// `extension` added where it has none, as `std::path::Path::with_extension`
/// gives it.
pub uninterp spec fn path_with_extension(path: Seq<char>, extension: Seq<char>) -> Seq<char>;

/// Whether the text holds no path separator.
pub open spec fn plain_extension(extension: Seq<char>) -> bool {
    !extension.contains('/') && !extension.contains('\\')
}

/// `Path::with_extension` on a path given as text. The result is a function
/// of the two texts alone. An extension that holds a path separator is left
/// out: std panics on it.
#[verifier::external_body]
pub(crate) fn with_extension(path: &str, extension: &str) -> (r: String)
    requires
        plain_extension(extension@),
    ensures
        r@ == path_with_extension(path@, extension@),
{
    std::path::Path::new(path).with_extension(extension).to_string_lossy().into_owned()
}

/// `str::starts_with` with a `str` pattern: whether the characters of
/// `prefix` are the first characters of `s`.
#[verifier::external_body]
pub(crate) fn starts_with(s: &str, prefix: &str) -> (r: bool)
    ensures
        r == prefix@.is_prefix_of(s@),
{
    s.starts_with(prefix)
}

/// `str::ends_with` with a `str` pattern: whether the characters of
/// `suffix` are the last characters of `s`.
#[verifier::external_body]
pub(crate) fn ends_with(s: &str, suffix: &str) -> (r: bool)
    ensures
        r == suffix@.is_suffix_of(s@),
{
    s.ends_with(suffix)
}

/// `str::strip_prefix` with a `str` pattern: what follows `prefix` in `s`,
/// where `s` starts with it.
#[verifier::external_body]
pub(crate) fn strip_prefix<'a>(s: &'a str, prefix: &str) -> (r: Option<&'a str>)
    ensures
        r is Some == prefix@.is_prefix_of(s@),
        r matches Some(rest) ==> rest@ == s@.skip(prefix@.len() as int),
{
    s.strip_prefix(prefix)
}

/// The text with every `/` turned into a backslash.
pub open spec fn with_backslashes(s: Seq<char>) -> Seq<char> {
    Seq::new(
        s.len(),
        |i: int|
            if s[i] == '/' {
                '\\'
            } else {
                s[i]
            },
    )
}

/// `str::replace` of the character `/` by a backslash: every `/` is
/// replaced, nothing else changes.
#[verifier::external_body]
pub(crate) fn backslashed(s: &str) -> (r: String)
    ensures
        r@ == with_backslashes(s@),
{
    s.replace('/', "\\")
}

/// The text without the white space at its ends, as `str::trim` leaves it.
pub uninterp spec fn trimmed(s: Seq<char>) -> Seq<char>;

/// `str::trim`: the text without leading and trailing white space. The
/// result is a function of the text alone.
#[verifier::external_body]
pub(crate) fn trim(s: &str) -> (r: &str)
    ensures
        r@ == trimmed(s@),
{
    s.trim()
}

/// The text without the characters `c` at its end.
pub open spec fn without_trailing(s: Seq<char>, c: char) -> Seq<char>
    decreases s.len(),
{
    if s.len() > 0 && s.last() == c {
        without_trailing(s.drop_last(), c)
    } else {
        s
    }
}

/// `str::trim_end_matches` with a `char` pattern: the text without the
/// characters `c` at its end.
#[verifier::external_body]
pub(crate) fn trim_end_matches(s: &str, c: char) -> (r: &str)
    ensures
        r@ == without_trailing(s@, c),
{
    s.trim_end_matches(c)
}

/// Whether `part` stands in `s` at position `at`.
pub open spec fn occurs_at(s: Seq<char>, part: Seq<char>, at: int) -> bool {
    0 <= at && at + part.len() <= s.len() && s.subrange(at, at + part.len()) == part
}

/// Whether the delimiter stands at `at` and nowhere further back.
pub open spec fn is_last_at(s: Seq<char>, delimiter: Seq<char>, at: int) -> bool {
    occurs_at(s, delimiter, at) && forall|later: int|
        later > at ==> !#[trigger] occurs_at(s, delimiter, later)
}

/// Whether the delimiter stands at `at` and nowhere before.
pub open spec fn is_first_at(s: Seq<char>, delimiter: Seq<char>, at: int) -> bool {
    occurs_at(s, delimiter, at) && forall|earlier: int|
        earlier < at ==> !#[trigger] occurs_at(s, delimiter, earlier)
}

/// What is before position `at` of the text, and what is behind the
/// delimiter that stands there.
pub open spec fn split_at(s: Seq<char>, delimiter: Seq<char>, at: int) -> (Seq<char>, Seq<char>) {
    (s.subrange(0, at), s.subrange(at + delimiter.len(), s.len() as int))
}

/// The text split at the last place where the delimiter stands in it: what
/// is before that place and what is behind the delimiter; nothing where the
/// delimiter stands nowhere.
pub open spec fn last_split(s: Seq<char>, delimiter: Seq<char>) -> Option<(Seq<char>, Seq<char>)> {
    if exists|at: int| is_last_at(s, delimiter, at) {
        Some(split_at(s, delimiter, choose|at: int| is_last_at(s, delimiter, at)))
    } else {
        None
    }
}

/// The text split at the first place where the delimiter stands in it.
pub open spec fn first_split(s: Seq<char>, delimiter: Seq<char>) -> Option<
    (Seq<char>, Seq<char>),
> {
    if exists|at: int| is_first_at(s, delimiter, at) {
        Some(split_at(s, delimiter, choose|at: int| is_first_at(s, delimiter, at)))
    } else {
        None
    }
}

/// The model of a split: the two parts as sequences of characters.
pub open spec fn parts_view(r: Option<(&str, &str)>) -> Option<(Seq<char>, Seq<char>)> {
    match r {
        Some((before, after)) => Some((before@, after@)),
        None => None,
    }
}

/// `str::rsplit_once` with a `str` pattern: the text split at the last
/// occurrence of the delimiter. The parts and the delimiter between them make
/// up the text, the delimiter stands nowhere further back, and there are no
/// parts exactly when the delimiter stands nowhere.
#[verifier::external_body]
pub(crate) fn rsplit_once<'a>(s: &'a str, delimiter: &str) -> (r: Option<(&'a str, &'a str)>)
    ensures
        r matches Some(parts) ==> s@ == parts.0@ + delimiter@ + parts.1@,
        r matches Some(parts) ==> forall|at: int|
            at > parts.0@.len() ==> !#[trigger] occurs_at(s@, delimiter@, at),
        r is None ==> forall|at: int| !#[trigger] occurs_at(s@, delimiter@, at),
{
    s.rsplit_once(delimiter)
}

/// `str::split_once` with a `str` pattern: the text split at the first
/// occurrence of the delimiter. The parts and the delimiter between them make
/// up the text, the delimiter stands nowhere before that, and there are no
/// parts exactly when the delimiter stands nowhere.
#[verifier::external_body]
pub(crate) fn split_once<'a>(s: &'a str, delimiter: &str) -> (r: Option<(&'a str, &'a str)>)
    ensures
        r matches Some(parts) ==> s@ == parts.0@ + delimiter@ + parts.1@,
        r matches Some(parts) ==> forall|at: int|
            at < parts.0@.len() ==> !#[trigger] occurs_at(s@, delimiter@, at),
        r is None ==> forall|at: int| !#[trigger] occurs_at(s@, delimiter@, at),
{
    s.split_once(delimiter)
}

/// The character that writes the digit `d`.
pub open spec fn digit_char(d: nat) -> char {
    if d == 0 {
        '0'
    } else if d == 1 {
        '1'
    } else if d == 2 {
        '2'
    } else if d == 3 {
        '3'
    } else if d == 4 {
        '4'
    } else if d == 5 {
        '5'
    } else if d == 6 {
        '6'
    } else if d == 7 {
        '7'
    } else if d == 8 {
        '8'
    } else {
        '9'
    }
}

/// The decimal digits of a number, the highest first, without leading
/// zeros.
pub open spec fn digits_of(n: nat) -> Seq<char>
    decreases n,
{
    if n < 10 {
        seq![digit_char(n)]
    } else {
        digits_of(n / 10).push(digit_char(n % 10))
    }
}

/// The decimal text of an integer: its digits, behind a `-` where it is
/// negative.
pub open spec fn decimal_text(n: int) -> Seq<char> {
    if n < 0 {
        seq!['-'] + digits_of((-n) as nat)
    } else {
        digits_of(n as nat)
    }
}

/// The text split at the last place where the delimiter stands in it.
pub fn split_last<'a>(s: &'a str, delimiter: &str) -> (r: Option<(&'a str, &'a str)>)
    ensures
        parts_view(r) == last_split(s@, delimiter@),
        r matches Some(parts) ==> s@ == parts.0@ + delimiter@ + parts.1@,
{
    let r = rsplit_once(s, delimiter);
    proof {
        match r {
            Some(parts) => {
                let at = parts.0@.len() as int;
                assert(s@.subrange(at, at + delimiter@.len()) =~= delimiter@);
                assert(is_last_at(s@, delimiter@, at));
                let chosen = choose|c: int| is_last_at(s@, delimiter@, c);
                assert(chosen == at) by {
                    if chosen < at {
                        assert(occurs_at(s@, delimiter@, at));
                    }
                    if chosen > at {
                        assert(occurs_at(s@, delimiter@, chosen));
                    }
                }
                assert(s@.subrange(0, at) =~= parts.0@);
                assert(s@.subrange(at + delimiter@.len(), s@.len() as int) =~= parts.1@);
            },
            None => {
                assert forall|at: int| !is_last_at(s@, delimiter@, at) by {
                    assert(!occurs_at(s@, delimiter@, at));
                }
            },
        }
    }
    r
}

/// The text split at the first place where the delimiter stands in it.
pub fn split_first<'a>(s: &'a str, delimiter: &str) -> (r: Option<(&'a str, &'a str)>)
    ensures
        parts_view(r) == first_split(s@, delimiter@),
        r matches Some(parts) ==> s@ == parts.0@ + delimiter@ + parts.1@,
{
    let r = split_once(s, delimiter);
    proof {
        match r {
            Some(parts) => {
                let at = parts.0@.len() as int;
                assert(s@.subrange(at, at + delimiter@.len()) =~= delimiter@);
                assert(is_first_at(s@, delimiter@, at));
                let chosen = choose|c: int| is_first_at(s@, delimiter@, c);
                assert(chosen == at) by {
                    if chosen < at {
                        assert(occurs_at(s@, delimiter@, chosen));
                    }
                    if chosen > at {
                        assert(occurs_at(s@, delimiter@, at));
                    }
                }
                assert(s@.subrange(0, at) =~= parts.0@);
                assert(s@.subrange(at + delimiter@.len(), s@.len() as int) =~= parts.1@);
            },
            None => {
                assert forall|at: int| !is_first_at(s@, delimiter@, at) by {
                    assert(!occurs_at(s@, delimiter@, at));
                }
            },
        }
    }
    r
}

} // verus!
