//! The data behind the landing page: the build's revision and the list of known zones.

use crate::timezone_pair::str_views;
use crate::zone::is_zone_name;
use vstd::prelude::*;

verus! {

/// Characters of a revision hash shown when the build commit is not given.
pub const SHORT_REVISION_LEN: usize = 6;

/// A lower-case hexadecimal digit.
pub open spec fn hex_digit(n: int) -> char {
    seq!['0', '1', '2', '3', '4', '5', '6', '7', '8', '9', 'a', 'b', 'c', 'd', 'e', 'f'][n]
}

/// A character as it stands inside a JSON string: quote, backslash and control characters
/// are escaped, with the short forms where JSON has them.
pub open spec fn json_escape_char(c: char) -> Seq<char> {
    if c == '"' {
        seq!['\\', '"']
    } else if c == '\\' {
        seq!['\\', '\\']
    } else if c == '\u{8}' {
        seq!['\\', 'b']
    } else if c == '\t' {
        seq!['\\', 't']
    } else if c == '\n' {
        seq!['\\', 'n']
    } else if c == '\u{c}' {
        seq!['\\', 'f']
    } else if c == '\r' {
        seq!['\\', 'r']
    } else if (c as u32) < 0x20 {
        seq!['\\', 'u', '0', '0', hex_digit((c as u32) as int / 16), hex_digit((c as u32) as int % 16)]
    } else {
        seq![c]
    }
}

pub open spec fn json_escaped(s: Seq<char>) -> Seq<char>
    decreases s.len(),
{
    if s.len() == 0 {
        Seq::empty()
    } else {
        json_escaped(s.drop_last()) + json_escape_char(s.last())
    }
}

/// A JSON string literal holding `s`.
pub open spec fn json_string(s: Seq<char>) -> Seq<char> {
    seq!['"'] + json_escaped(s) + seq!['"']
}

/// The string literals of `names`, separated by commas.
pub open spec fn json_items(names: Seq<Seq<char>>) -> Seq<char>
    decreases names.len(),
{
    if names.len() == 0 {
        Seq::empty()
    } else if names.len() == 1 {
        json_string(names[0])
    } else {
        json_items(names.drop_last()) + seq![','] + json_string(names.last())
    }
}

/// The compact JSON text of an array of the given strings.
pub open spec fn json_of_names(names: Seq<Seq<char>>) -> Seq<char> {
    seq!['['] + json_items(names) + seq![']']
}

/// What the landing page shows.
pub struct IndexTemplate {
    pub git_rev: String,
    pub tz_json: String,
}

/// The first `SHORT_REVISION_LEN` characters of `rev`, or all of it when shorter.
pub open spec fn short_revision(rev: Seq<char>) -> Seq<char> {
    if rev.len() <= SHORT_REVISION_LEN {
        rev
    } else {
        rev.subrange(0, SHORT_REVISION_LEN as int)
    }
}

impl IndexTemplate {
    /// The page for the given zone names: the revision is `build_commit` when given, else
    /// the short form of `git_rev`.
    pub fn with_zone_names(build_commit: Option<String>, git_rev: &str, names: &Vec<&str>) -> (r:
        IndexTemplate)
        ensures
            r.git_rev@ == match build_commit {
                Some(c) => c@,
                None => short_revision(git_rev@),
            },
            r.tz_json@ == json_of_names(str_views(names@)),
    {
        let git_rev = match build_commit {
            Some(c) => c,
            None => {
                let n = git_rev.unicode_len();
                let end = if n <= SHORT_REVISION_LEN {
                    n
                } else {
                    SHORT_REVISION_LEN
                };
                let short = git_rev.substring_char(0, end);
                assert(git_rev@.subrange(0, n as int) =~= git_rev@);
                short.to_owned()
            },
        };
        IndexTemplate { git_rev, tz_json: names_json(names) }
    }

    /// The page listing every zone that chrono-tz knows, each once.
    pub fn new(build_commit: Option<String>, git_rev: &str) -> (r: IndexTemplate)
        ensures
            r.git_rev@ == match build_commit {
                Some(c) => c@,
                None => short_revision(git_rev@),
            },
            exists|names: Seq<Seq<char>>|
                {
                    &&& names.no_duplicates()
                    &&& forall|n: Seq<char>| is_zone_name(n) <==> #[trigger] names.contains(n)
                    &&& r.tz_json@ == json_of_names(names)
                },
    {
        let names = zone_names();
        IndexTemplate::with_zone_names(build_commit, git_rev, &names)
    }
}

/// Relies on chrono-tz's `TZ_VARIANTS` and `Tz::name`: each zone of its table once, and the
/// names are exactly those that its `FromStr` accepts.
#[verifier::external_body]
fn zone_names() -> (r: Vec<&'static str>)
    ensures
        str_views(r@).no_duplicates(),
        forall|n: Seq<char>| is_zone_name(n) <==> #[trigger] str_views(r@).contains(n),
{
    chrono_tz::TZ_VARIANTS.iter().map(|t| t.name()).collect()
}

/// Relies on `serde_json::to_string` for a sequence of strings: the compact form, with
/// serde_json's escapes; it cannot fail for strings.
#[verifier::external_body]
fn names_json(names: &Vec<&str>) -> (r: String)
    ensures
        r@ == json_of_names(str_views(names@)),
{
    match serde_json::to_string(names) {
        Ok(s) => s,
        Err(_) => String::new(),
    }
}

} // verus!
