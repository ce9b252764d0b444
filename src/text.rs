//! Character and byte helpers shared by the parser and the response writer.
use vstd::prelude::*;
use vstd::std_specs::iter::IteratorSpec;
use vstd::string::*;

verus! {

broadcast use vstd::string::axiom_spec_iter;

/// The characters of `s`, in order.
pub fn chars_of(s: &str) -> (r: Vec<char>)
    ensures
        r@ == s@,
{
    let mut out: Vec<char> = Vec::new();
    for c in it: s.chars()
        invariant
            it.seq() == s@,
            out@ == it.seq().take(it.index() as int),
    {
        out.push(c);
    }
    out
}

/// Relies on `String::push`: appends one character.
#[verifier::external_body]
pub(crate) fn push_char(s: &mut String, c: char)
    ensures
        final(s)@ == old(s)@.push(c),
{
    s.push(c);
}

/// Appends the characters of `t` to `s`.
pub fn push_str(s: &mut String, t: &str)
    ensures
        final(s)@ == old(s)@ + t@,
{
    let tc = chars_of(t);
    let mut i: usize = 0;
    while i < tc.len()
        invariant
            i <= tc@.len(),
            tc@ == t@,
            s@ == old(s)@ + t@.take(i as int),
        decreases tc@.len() - i,
    {
        push_char(s, tc[i]);
        i = i + 1;
        assert(s@ =~= old(s)@ + t@.take(i as int));
    }
    assert(t@.take(tc@.len() as int) =~= t@);
}

/// A string holding exactly the given characters.
pub fn string_of(cs: &[char]) -> (r: String)
    ensures
        r@ == cs@,
{
    let mut s = String::new();
    let mut i: usize = 0;
    while i < cs.len()
        invariant
            i <= cs@.len(),
            s@ == cs@.take(i as int),
        decreases cs@.len() - i,
    {
        push_char(&mut s, cs[i]);
        i = i + 1;
        assert(s@ =~= cs@.take(i as int));
    }
    assert(cs@.take(cs@.len() as int) =~= cs@);
    s
}


/// `p` is a prefix of `s`.
pub open spec fn has_prefix(s: Seq<char>, p: Seq<char>) -> bool {
    p.len() <= s.len() && s.subrange(0, p.len() as int) == p
}

/// Whether `s` begins with `p`.
pub fn starts_with(s: &[char], p: &[char]) -> (r: bool)
    ensures
        r == has_prefix(s@, p@),
{
    if p.len() > s.len() {
        return false;
    }
    let mut i: usize = 0;
    while i < p.len()
        invariant
            p@.len() <= s@.len(),
            i <= p@.len(),
            forall|k: int| 0 <= k < i ==> s@[k] == p@[k],
        decreases p@.len() - i,
    {
        if s[i] != p[i] {
            return false;
        }
        i = i + 1;
    }
    assert(s@.subrange(0, p@.len() as int) =~= p@);
    true
}

/// Whether `s` and `t` hold the same characters.
pub fn same_chars(s: &[char], t: &[char]) -> (r: bool)
    ensures
        r == (s@ == t@),
{
    if s.len() != t.len() {
        return false;
    }
    let r = starts_with(s, t);
    proof {
        if r {
            assert(s@ =~= s@.subrange(0, t@.len() as int));
        }
        if s@ == t@ {
            assert(s@.subrange(0, t@.len() as int) =~= t@);
        }
    }
    r
}

/// Whether `s` holds exactly the characters of `t`.
pub fn same_as_str(s: &[char], t: &str) -> (r: bool)
    ensures
        r == (s@ == t@),
{
    let tc = chars_of(t);
    same_chars(s, tc.as_slice())
}

/// `sep` occurs in `s` at position `i`.
pub open spec fn occurs_at(s: Seq<char>, sep: Seq<char>, i: int) -> bool {
    0 <= i && i + sep.len() <= s.len() && s.subrange(i, i + sep.len()) == sep
}

/// The pieces of `s` between non-overlapping occurrences of `sep`, searched from
/// the left; the current piece started at `start` and the search is at `i`.
pub open spec fn split_from(s: Seq<char>, sep: Seq<char>, start: int, i: int) -> Seq<Seq<char>>
    decreases s.len() - i,
{
    if sep.len() == 0 || i < 0 || i + sep.len() > s.len() {
        seq![s.subrange(start, s.len() as int)]
    } else if occurs_at(s, sep, i) {
        seq![s.subrange(start, i)] + split_from(s, sep, i + sep.len(), i + sep.len())
    } else {
        split_from(s, sep, start, i + 1)
    }
}

/// `s` cut at every occurrence of the non-empty `sep`, as `str::split` does.
pub open spec fn split(s: Seq<char>, sep: Seq<char>) -> Seq<Seq<char>> {
    split_from(s, sep, 0, 0)
}

/// A one-character separator occurs exactly where that character stands.
pub proof fn lemma_occurs_char(s: Seq<char>, c: char, k: int)
    requires
        0 <= k < s.len(),
    ensures
        occurs_at(s, seq![c], k) == (s[k] == c),
{
    if s[k] == c {
        assert(s.subrange(k, k + 1) =~= seq![c]);
    } else {
        assert(s.subrange(k, k + 1)[0] == s[k]);
    }
}

/// Searching past positions where `c` does not stand changes nothing.
pub proof fn lemma_split_skip(s: Seq<char>, c: char, start: int, i: int, j: int)
    requires
        0 <= start <= i <= j <= s.len(),
        forall|k: int| i <= k < j ==> s[k] != c,
    ensures
        split_from(s, seq![c], start, i) == split_from(s, seq![c], start, j),
    decreases j - i,
{
    if i < j {
        lemma_occurs_char(s, c, i);
        lemma_split_skip(s, c, start, i + 1, j);
    }
}

/// The piece that starts at `start` ends at the first `c`, at `j`.
pub proof fn lemma_split_at_char(s: Seq<char>, c: char, start: int, j: int)
    requires
        0 <= start <= j < s.len(),
        s[j] == c,
        forall|k: int| start <= k < j ==> s[k] != c,
    ensures
        split_from(s, seq![c], start, start) == seq![s.subrange(start, j)] + split_from(
            s,
            seq![c],
            j + 1,
            j + 1,
        ),
{
    lemma_split_skip(s, c, start, start, j);
    lemma_occurs_char(s, c, j);
}

/// Where no `c` stands from `start` on, the rest is the last piece.
pub proof fn lemma_split_end_char(s: Seq<char>, c: char, start: int)
    requires
        0 <= start <= s.len(),
        forall|k: int| start <= k < s.len() ==> s[k] != c,
    ensures
        split_from(s, seq![c], start, start) == seq![s.subrange(start, s.len() as int)],
{
    lemma_split_skip(s, c, start, start, s.len() as int);
}

/// The pieces of `s` between occurrences of `sep`.
pub fn split_chars(s: &[char], sep: &[char]) -> (r: Vec<Vec<char>>)
    requires
        sep@.len() > 0,
    ensures
        r@.len() == split(s@, sep@).len(),
        forall|k: int| 0 <= k < r@.len() ==> (#[trigger] r@[k])@ == split(s@, sep@)[k],
{
    let mut out: Vec<Vec<char>> = Vec::new();
    let mut start: usize = 0;
    let mut i: usize = 0;
    let ghost acc: Seq<Seq<char>> = Seq::empty();
    while sep.len() <= s.len() - i
        invariant
            sep@.len() > 0,
            0 <= start <= i <= s@.len(),
            acc.len() == out@.len(),
            forall|k: int| 0 <= k < out@.len() ==> (#[trigger] out@[k])@ == acc[k],
            acc + split_from(s@, sep@, start as int, i as int) == split(s@, sep@),
        decreases s@.len() - i,
    {
        let at = starts_with(&s[i..s.len()], sep);
        assert(s@.subrange(i as int, s@.len() as int).subrange(0, sep@.len() as int)
            =~= s@.subrange(i as int, i + sep@.len()));
        if at {
            let mut piece: Vec<char> = Vec::new();
            piece.extend_from_slice(&s[start..i]);
            assert(piece@ =~= s@.subrange(start as int, i as int));
            proof {
                assert(acc.push(piece@) + split_from(s@, sep@, i + sep@.len(), i + sep@.len())
                    =~= acc + split_from(s@, sep@, start as int, i as int));
                acc = acc.push(piece@);
            }
            out.push(piece);
            i = i + sep.len();
            start = i;
        } else {
            i = i + 1;
        }
    }
    let mut last: Vec<char> = Vec::new();
    last.extend_from_slice(&s[start..s.len()]);
    assert(last@ =~= s@.subrange(start as int, s@.len() as int));
    proof {
        assert(acc.push(last@) =~= acc + split_from(s@, sep@, start as int, i as int));
        acc = acc.push(last@);
    }
    out.push(last);
    out
}

/// The character of the decimal digit `d`.
pub open spec fn digit_char(d: nat) -> char {
    ((48 + d) as u8) as char
}

/// The decimal digits of `n`, most significant first, without leading zeros.
pub open spec fn decimal(n: nat) -> Seq<char>
    decreases n,
{
    if n < 10 {
        seq![digit_char(n)]
    } else {
        decimal(n / 10).push(digit_char(n % 10))
    }
}

/// Appends the decimal digits of `n` to `s`.
pub fn push_decimal(s: &mut String, n: usize)
    ensures
        final(s)@ == old(s)@ + decimal(n as nat),
    decreases n,
{
    if n >= 10 {
        push_decimal(s, n / 10);
    }
    let d: u8 = (n % 10) as u8;
    push_char(s, (48u8 + d) as char);
    assert(final(s)@ =~= old(s)@ + decimal(n as nat));
}

} // verus!
