//! Line-oriented text handling: splitting a sequence at a separator and
//! trimming Unicode white space.
use vstd::prelude::*;

verus! {

/// `k` is the position of the first occurrence of `sep` in `s`.
pub open spec fn first_sep_at<A>(s: Seq<A>, sep: A, k: int) -> bool {
    &&& 0 <= k < s.len()
    &&& s[k] == sep
    &&& forall|j: int| 0 <= j < k ==> s[j] != sep
}

/// The pieces of `s` between occurrences of `sep`, in order. Adjacent
/// separators give an empty piece between them, and a sequence with `n`
/// separators has `n + 1` pieces.
pub open spec fn pieces<A>(s: Seq<A>, sep: A) -> Seq<Seq<A>>
    decreases s.len(),
{
    if exists|k: int| first_sep_at(s, sep, k) {
        let k = choose|k: int| first_sep_at(s, sep, k);
        seq![s.subrange(0, k)] + pieces(s.subrange(k + 1, s.len() as int), sep)
    } else {
        seq![s]
    }
}

pub proof fn lemma_pieces_split<A>(s: Seq<A>, sep: A, k: int)
    requires
        first_sep_at(s, sep, k),
    ensures
        pieces(s, sep) == seq![s.subrange(0, k)] + pieces(s.subrange(k + 1, s.len() as int), sep),
{
    let c = choose|c: int| first_sep_at(s, sep, c);
    assert(first_sep_at(s, sep, c));
    if c < k {
        assert(s[c] != sep);
    } else if k < c {
        assert(s[k] != sep);
    }
}

pub proof fn lemma_pieces_whole<A>(s: Seq<A>, sep: A)
    requires
        forall|j: int| 0 <= j < s.len() ==> s[j] != sep,
    ensures
        pieces(s, sep) == seq![s],
{
    if exists|k: int| first_sep_at(s, sep, k) {
        let k = choose|k: int| first_sep_at(s, sep, k);
        assert(s[k] != sep);
    }
}

/// A sequence that holds the separator somewhere holds a first one.
pub proof fn lemma_first_sep_exists<A>(s: Seq<A>, sep: A, j: int)
    requires
        0 <= j < s.len(),
        s[j] == sep,
    ensures
        exists|k: int| first_sep_at(s, sep, k),
    decreases j,
{
    if exists|i: int| 0 <= i < j && s[i] == sep {
        let i = choose|i: int| 0 <= i < j && s[i] == sep;
        lemma_first_sep_exists(s, sep, i);
    } else {
        assert(first_sep_at(s, sep, j));
    }
}

/// Splitting two sequences joined by one separator gives the pieces of the
/// first followed by the pieces of the second.
pub proof fn lemma_pieces_join<A>(s1: Seq<A>, s2: Seq<A>, sep: A)
    ensures
        pieces(s1 + seq![sep] + s2, sep) == pieces(s1, sep) + pieces(s2, sep),
    decreases s1.len(),
{
    let whole = s1 + seq![sep] + s2;
    if exists|k: int| first_sep_at(s1, sep, k) {
        let k = choose|k: int| first_sep_at(s1, sep, k);
        assert(first_sep_at(whole, sep, k));
        lemma_pieces_split(whole, sep, k);
        lemma_pieces_split(s1, sep, k);
        let t1 = s1.subrange(k + 1, s1.len() as int);
        assert(whole.subrange(k + 1, whole.len() as int) =~= t1 + seq![sep] + s2);
        assert(whole.subrange(0, k) =~= s1.subrange(0, k));
        lemma_pieces_join(t1, s2, sep);
        assert(pieces(whole, sep) =~= pieces(s1, sep) + pieces(s2, sep));
    } else {
        assert forall|j: int| 0 <= j < s1.len() implies s1[j] != sep by {
            if s1[j] == sep {
                lemma_first_sep_exists(s1, sep, j);
            }
        }
        lemma_pieces_whole(s1, sep);
        let k = s1.len() as int;
        assert(first_sep_at(whole, sep, k));
        lemma_pieces_split(whole, sep, k);
        assert(whole.subrange(0, k) =~= s1);
        assert(whole.subrange(k + 1, whole.len() as int) =~= s2);
    }
}

/// The characters with the Unicode `White_Space` property.
pub open spec fn is_white_space_spec(c: char) -> bool {
    let u = c as u32;
    (0x09 <= u <= 0x0d) || u == 0x20 || u == 0x85 || u == 0xa0 || u == 0x1680 || (0x2000 <= u
        <= 0x200a) || u == 0x2028 || u == 0x2029 || u == 0x202f || u == 0x205f || u == 0x3000
}

/// Whether `c` is Unicode white space.
pub fn is_white_space(c: char) -> (r: bool)
    ensures
        r == is_white_space_spec(c),
{
    let u = c as u32;
    (0x09 <= u && u <= 0x0d) || u == 0x20 || u == 0x85 || u == 0xa0 || u == 0x1680 || (0x2000
        <= u && u <= 0x200a) || u == 0x2028 || u == 0x2029 || u == 0x202f || u == 0x205f || u
        == 0x3000
}

/// `s` without its leading white space.
pub open spec fn trim_start_spec(s: Seq<char>) -> Seq<char>
    decreases s.len(),
{
    if s.len() > 0 && is_white_space_spec(s[0]) {
        trim_start_spec(s.drop_first())
    } else {
        s
    }
}

/// `s` without its trailing white space.
pub open spec fn trim_end_spec(s: Seq<char>) -> Seq<char>
    decreases s.len(),
{
    if s.len() > 0 && is_white_space_spec(s.last()) {
        trim_end_spec(s.drop_last())
    } else {
        s
    }
}

/// `s` without its leading and trailing white space.
pub open spec fn trim_spec(s: Seq<char>) -> Seq<char> {
    trim_end_spec(trim_start_spec(s))
}

/// Removes leading and trailing white space, as `str::trim` does.
pub fn trim(s: &str) -> (r: String)
    ensures
        r@ == trim_spec(s@),
        (forall|j: int| 0 <= j < s@.len() ==> s@[j] != '\n') ==> forall|j: int|
            0 <= j < r@.len() ==> r@[j] != '\n',
{
    let n = s.unicode_len();
    let mut lo: usize = 0;
    assert(s@.subrange(0, n as int) =~= s@);
    while lo < n && is_white_space(s.get_char(lo))
        invariant
            n == s@.len(),
            lo <= n,
            trim_start_spec(s@) == trim_start_spec(s@.subrange(lo as int, n as int)),
        decreases n - lo,
    {
        assert(s@.subrange(lo as int, n as int).drop_first() =~= s@.subrange(lo + 1, n as int));
        lo = lo + 1;
    }
    let ghost front = s@.subrange(lo as int, n as int);
    assert(trim_start_spec(front) == front);
    let mut hi: usize = n;
    while hi > lo && is_white_space(s.get_char(hi - 1))
        invariant
            n == s@.len(),
            lo <= hi <= n,
            trim_end_spec(front) == trim_end_spec(s@.subrange(lo as int, hi as int)),
        decreases hi,
    {
        assert(s@.subrange(lo as int, hi as int).drop_last() =~= s@.subrange(
            lo as int,
            hi - 1,
        ));
        hi = hi - 1;
    }
    let ghost sub = s@.subrange(lo as int, hi as int);
    assert(trim_end_spec(sub) == sub);
    s.substring_char(lo, hi).to_owned()
}

/// The lines of `text`, split at each newline character, each one trimmed
/// of leading and trailing white space.
pub open spec fn trimmed_lines_spec(text: Seq<char>) -> Seq<Seq<char>> {
    pieces(text, '\n').map_values(|l: Seq<char>| trim_spec(l))
}

/// Splits `text` at each newline character and trims every line.
pub fn trimmed_lines(text: &str) -> (r: Vec<String>)
    ensures
        r@.map_values(|l: String| l@) == trimmed_lines_spec(text@),
        forall|i: int, j: int|
            0 <= i < r@.len() && 0 <= j < r@[i]@.len() ==> r@[i]@[j] != '\n',
{
    let n = text.unicode_len();
    let mut lines: Vec<String> = Vec::new();
    let mut start: usize = 0;
    let mut i: usize = 0;
    assert(text@.subrange(0, n as int) =~= text@);
    assert(lines@.map_values(|l: String| l@) + trimmed_lines_spec(text@) =~= trimmed_lines_spec(
        text@,
    ));
    while i < n
        invariant
            n == text@.len(),
            start <= i <= n,
            forall|j: int| start <= j < i ==> text@[j] != '\n',
            forall|a: int, j: int|
                0 <= a < lines@.len() && 0 <= j < lines@[a]@.len() ==> lines@[a]@[j] != '\n',
            lines@.map_values(|l: String| l@) + pieces(
                text@.subrange(start as int, n as int),
                '\n',
            ).map_values(|l: Seq<char>| trim_spec(l)) == trimmed_lines_spec(text@),
        decreases n - i,
    {
        if text.get_char(i) == '\n' {
            let ghost rest = text@.subrange(start as int, n as int);
            proof {
                assert(first_sep_at(rest, '\n', i - start));
                lemma_pieces_split(rest, '\n', i - start);
                assert(rest.subrange(0, i - start) =~= text@.subrange(start as int, i as int));
                assert(rest.subrange(i - start + 1, rest.len() as int) =~= text@.subrange(
                    i + 1,
                    n as int,
                ));
            }
            let line = trim(text.substring_char(start, i));
            let ghost before = lines@.map_values(|l: String| l@);
            lines.push(line);
            assert(lines@.map_values(|l: String| l@) =~= before.push(line@));
            assert(pieces(rest, '\n').map_values(|l: Seq<char>| trim_spec(l)) =~= seq![
                line@,
            ] + pieces(text@.subrange(i + 1, n as int), '\n').map_values(
                |l: Seq<char>| trim_spec(l),
            ));
            start = i + 1;
        }
        i = i + 1;
    }
    let ghost rest = text@.subrange(start as int, n as int);
    proof {
        lemma_pieces_whole(rest, '\n');
    }
    let line = trim(text.substring_char(start, n));
    let ghost before = lines@.map_values(|l: String| l@);
    lines.push(line);
    assert(lines@.map_values(|l: String| l@) =~= before.push(line@));
    assert(pieces(rest, '\n').map_values(|l: Seq<char>| trim_spec(l)) =~= seq![line@]);
    lines
}

} // verus!
