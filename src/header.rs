//! The header line of a device block: `<display name> (<identifier>):`.
use regex::Regex;
use vstd::prelude::*;

verus! {

#[verifier::external_type_specification]
#[verifier::external_body]
pub struct ExRegex(Regex);

/// A header of the form `name (id):` starts `line`, with the name ending at
/// `a` and the identifier ending at `b`: `line[a..a+2]` is ` (` and
/// `line[b..b+2]` is `):`.
pub open spec fn header_at(line: Seq<char>, a: int, b: int) -> bool {
    &&& 0 <= a
    &&& a + 2 <= b
    &&& b + 2 <= line.len()
    &&& line[a] == ' '
    &&& line[a + 1] == '('
    &&& line[b] == ')'
    &&& line[b + 1] == ':'
}

/// The header at `(a, b)` is the one that greedy matching picks: the name is
/// as long as possible, and then the identifier is as long as possible.
pub open spec fn greedy_header_at(line: Seq<char>, a: int, b: int) -> bool {
    &&& header_at(line, a, b)
    &&& forall|a2: int, b2: int|
        #[trigger] header_at(line, a2, b2) ==> a2 < a || (a2 == a && b2 <= b)
}

/// The display name and the identifier that the header `line` holds, if any.
pub open spec fn header_fields(line: Seq<char>) -> Option<(Seq<char>, Seq<char>)> {
    if exists|a: int, b: int| greedy_header_at(line, a, b) {
        let (a, b) = choose|a: int, b: int| greedy_header_at(line, a, b);
        Some((line.subrange(0, a), line.subrange(a + 2, b)))
    } else {
        None
    }
}

/// The header line written for a device named `name` with identifier `id`.
pub open spec fn header_line(name: Seq<char>, id: Seq<char>) -> Seq<char> {
    name + seq![' ', '('] + id + seq![')', ':']
}

/// Neither parenthesis occurs in `s`.
pub open spec fn no_parens(s: Seq<char>) -> bool {
    forall|j: int| 0 <= j < s.len() ==> s[j] != '(' && s[j] != ')'
}

/// A header written from a name and an identifier without parentheses is
/// read back as that name and that identifier.
pub proof fn lemma_header_fields_of_line(name: Seq<char>, id: Seq<char>)
    requires
        no_parens(name),
        no_parens(id),
    ensures
        header_fields(header_line(name, id)) == Some((name, id)),
{
    let line = header_line(name, id);
    let a = name.len() as int;
    let b = a + 2 + id.len();
    assert(line.len() == b + 2);
    assert forall|j: int| 0 <= j < a implies line[j] == name[j] by {}
    assert forall|j: int| a + 2 <= j < b implies line[j] == id[j - a - 2] by {}
    assert(header_at(line, a, b));
    assert forall|a2: int, b2: int| #[trigger] header_at(line, a2, b2) implies a2 < a || (a2 == a
        && b2 <= b) by {
        if a2 + 1 < a {
            assert(line[a2 + 1] == name[a2 + 1]);
        } else if a2 + 1 > a + 1 && a2 + 1 < b {
            assert(line[a2 + 1] == id[a2 + 1 - a - 2]);
        }
        if b2 > b {
            assert(b2 + 2 <= line.len());
        } else if a2 == a && b2 > b {
            assert(false);
        }
    }
    assert(greedy_header_at(line, a, b));
    let (a1, b1) = choose|a1: int, b1: int| greedy_header_at(line, a1, b1);
    assert(header_at(line, a1, b1));
    assert(header_at(line, a, b));
    assert(a1 == a && b1 == b);
    assert(line.subrange(0, a) =~= name);
    assert(line.subrange(a + 2, b) =~= id);
}

/// The compiled header pattern `(?P<name>.*) \((?P<id>.*)\):`.
pub(crate) struct HeaderPattern {
    re: Regex,
}

impl HeaderPattern {
    /// Relies on regex::Regex::new, which compiles this fixed, valid pattern
    /// without error.
    #[verifier::external_body]
    pub(crate) fn new() -> (r: HeaderPattern) {
        HeaderPattern { re: Regex::new(r"(?P<name>.*) \((?P<id>.*)\):").unwrap() }
    }

    /// Relies on regex::Regex::captures: a line without a newline matches
    /// from its start, and leftmost-first greedy matching takes the longest
    /// name, then the longest identifier, for which the line goes on with
    /// ` (`, the identifier and `):`.
    #[verifier::external_body]
    pub(crate) fn captures(&self, line: &str) -> (r: Option<(String, String)>)
        requires
            forall|j: int| 0 <= j < line@.len() ==> line@[j] != '\n',
        ensures
            match r {
                None => header_fields(line@) is None,
                Some((name, id)) => header_fields(line@) == Some((name@, id@)),
            },
    {
        self.re.captures(line).map(|c| (c["name"].to_string(), c["id"].to_string()))
    }
}

} // verus!
