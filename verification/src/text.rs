//! Verified helpers on character sequences: whitespace trimming, prefix
//! tests, splitting on newlines, and joining with a separator.

use vstd::prelude::*;

verus! {

/// Whitespace for the purposes of trimming finder output: the ASCII blank
/// characters that can surround a selection written to a pipe.
pub open spec fn is_ws(c: char) -> bool {
    c == ' ' || c == '\t' || c == '\n' || c == '\r'
}

/// The sequence with leading whitespace removed.
pub open spec fn trim_front(s: Seq<char>) -> Seq<char>
    decreases s.len(),
{
    if s.len() > 0 && is_ws(s[0]) {
        trim_front(s.skip(1))
    } else {
        s
    }
}

/// The sequence with trailing whitespace removed.
pub open spec fn trim_back(s: Seq<char>) -> Seq<char>
    decreases s.len(),
{
    if s.len() > 0 && is_ws(s[s.len() - 1]) {
        trim_back(s.take(s.len() - 1))
    } else {
        s
    }
}

/// The sequence with both leading and trailing whitespace removed.
pub open spec fn spec_trim(s: Seq<char>) -> Seq<char> {
    trim_back(trim_front(s))
}

proof fn lemma_trim_front_is_skip(s: Seq<char>, i: int)
    requires
        0 <= i <= s.len(),
        forall|k: int| 0 <= k < i ==> is_ws(s[k]),
        i == s.len() || !is_ws(s[i]),
    ensures
        trim_front(s) == s.skip(i),
    decreases i,
{
    if i == 0 {
        assert(s.skip(0) == s);
    } else {
        assert(is_ws(s[0]));
        lemma_trim_front_is_skip(s.skip(1), i - 1);
        assert(s.skip(1).skip(i - 1) == s.skip(i));
    }
}

proof fn lemma_trim_back_is_take(s: Seq<char>, j: int)
    requires
        0 <= j <= s.len(),
        forall|k: int| j <= k < s.len() ==> is_ws(s[k]),
        j == 0 || !is_ws(s[j - 1]),
    ensures
        trim_back(s) == s.take(j),
    decreases s.len() - j,
{
    if j == s.len() {
        assert(s.take(j) == s);
    } else {
        assert(is_ws(s[s.len() - 1]));
        lemma_trim_back_is_take(s.take(s.len() - 1), j);
        assert(s.take(s.len() - 1).take(j) == s.take(j));
    }
}

/// Whether `c` is one of the trimmed whitespace characters.
pub fn is_ws_char(c: char) -> (r: bool)
    ensures
        r == is_ws(c),
{
    c == ' ' || c == '\t' || c == '\n' || c == '\r'
}

/// Whether the sequence holds a newline character.
pub open spec fn has_nl(s: Seq<char>) -> bool {
    exists|k: int| 0 <= k < s.len() && s[k] == '\n'
}

/// The index of the first newline character, counting the whole length when
/// there is none.
pub open spec fn first_nl(s: Seq<char>) -> int
    decreases s.len(),
{
    if s.len() == 0 {
        0
    } else if s[0] == '\n' {
        0
    } else {
        1 + first_nl(s.skip(1))
    }
}

proof fn lemma_first_nl_at(s: Seq<char>, i: int)
    requires
        0 <= i <= s.len(),
        forall|k: int| 0 <= k < i ==> s[k] != '\n',
        i == s.len() || s[i] == '\n',
    ensures
        first_nl(s) == i,
    decreases i,
{
    if i == 0 {
    } else {
        lemma_first_nl_at(s.skip(1), i - 1);
    }
}

/// The sequence split at newline characters: one part per line, the
/// separators dropped. An empty sequence yields one empty part.
pub open spec fn spec_split_lines(s: Seq<char>) -> Seq<Seq<char>>
    decreases s.len(),
{
    if has_nl(s) && 0 <= first_nl(s) < s.len() {
        seq![s.take(first_nl(s))] + spec_split_lines(s.skip(first_nl(s) + 1))
    } else {
        seq![s]
    }
}

proof fn lemma_first_nl_in_range(s: Seq<char>)
    requires
        has_nl(s),
    ensures
        0 <= first_nl(s) < s.len(),
        s[first_nl(s)] == '\n',
        forall|k: int| 0 <= k < first_nl(s) ==> s[k] != '\n',
    decreases s.len(),
{
    if s.len() > 0 && s[0] != '\n' {
        assert(has_nl(s.skip(1))) by {
            let w = choose|k: int| 0 <= k < s.len() && s[k] == '\n';
            assert(s.skip(1)[w - 1] == '\n');
        }
        lemma_first_nl_in_range(s.skip(1));
        assert forall|k: int| 0 <= k < first_nl(s) implies s[k] != '\n' by {
            if k >= 1 {
                assert(s.skip(1)[k - 1] != '\n');
            }
        }
    }
}

proof fn lemma_split_lines_step(s: Seq<char>, i: int)
    requires
        0 <= i < s.len(),
        s[i] == '\n',
        forall|k: int| 0 <= k < i ==> s[k] != '\n',
    ensures
        spec_split_lines(s) == seq![s.take(i)] + spec_split_lines(s.skip(i + 1)),
{
    lemma_first_nl_at(s, i);
    assert(has_nl(s));
}

/// The parts of `s` between newline characters, in order.
pub fn split_lines(s: &str) -> (r: Vec<String>)
    ensures
        r.deep_view() == spec_split_lines(s@),
{
    let n: usize = s.unicode_len();
    let mut out: Vec<String> = Vec::new();
    let mut start: usize = 0;
    let mut i: usize = 0;
    proof {
        assert(s@.skip(0) == s@);
        assert(out.deep_view() + spec_split_lines(s@) =~= spec_split_lines(s@));
    }
    while i < n
        invariant
            0 <= start <= i <= n,
            n == s@.len(),
            forall|k: int| start <= k < i ==> s@[k] != '\n',
            spec_split_lines(s@) == out.deep_view() + spec_split_lines(s@.skip(start as int)),
        decreases n - i,
    {
        if s.get_char(i) == '\n' {
            let ghost old_out = out.deep_view();
            out.push(s.substring_char(start, i).to_owned());
            proof {
                let tail = s@.skip(start as int);
                assert(forall|k: int|
                    0 <= k < i - start ==> tail[k] == s@[k + start] && tail[k] != '\n');
                assert(tail[i - start] == '\n');
                lemma_split_lines_step(tail, i - start);
                assert(tail.take(i - start) == s@.subrange(start as int, i as int));
                assert(tail.skip(i - start + 1) == s@.skip(i + 1));
                assert(out.deep_view() == old_out + seq![s@.subrange(start as int, i as int)]);
                assert(out.deep_view() + spec_split_lines(s@.skip(i + 1)) == old_out
                    + spec_split_lines(s@.skip(start as int)));
            }
            start = i + 1;
        }
        i = i + 1;
    }
    let ghost old_out = out.deep_view();
    out.push(s.substring_char(start, n).to_owned());
    proof {
        let tail = s@.skip(start as int);
        assert(forall|k: int| 0 <= k < tail.len() ==> tail[k] == s@[k + start] && tail[k] != '\n');
        assert(!has_nl(tail));
        assert(tail == s@.subrange(start as int, n as int));
        assert(out.deep_view() == old_out + seq![tail]);
        assert(out.deep_view() == old_out + spec_split_lines(tail));
    }
    out
}

/// A copy of `s` with leading and trailing whitespace removed.
pub fn trim(s: &str) -> (r: String)
    ensures
        r@ == spec_trim(s@),
{
    let n: usize = s.unicode_len();
    let mut i: usize = 0;
    while i < n && is_ws_char(s.get_char(i))
        invariant
            0 <= i <= n,
            n == s@.len(),
            forall|k: int| 0 <= k < i ==> is_ws(s@[k]),
        decreases n - i,
    {
        i = i + 1;
    }
    let mut j: usize = n;
    while j > i && is_ws_char(s.get_char(j - 1))
        invariant
            i <= j <= n,
            n == s@.len(),
            forall|k: int| 0 <= k < i ==> is_ws(s@[k]),
            forall|k: int| j <= k < n ==> is_ws(s@[k]),
        decreases j,
    {
        j = j - 1;
    }
    proof {
        lemma_trim_front_is_skip(s@, i as int);
        if i < n {
            lemma_trim_back_is_take(s@.skip(i as int), j - i);
        } else {
            lemma_trim_back_is_take(s@.skip(i as int), 0);
        }
        assert(s@.skip(i as int).take(j - i) == s@.subrange(i as int, j as int));
    }
    s.substring_char(i, j).to_owned()
}

/// The parts joined with `sep` between each neighbouring pair.
pub open spec fn spec_join(parts: Seq<Seq<char>>, sep: Seq<char>) -> Seq<char>
    decreases parts.len(),
{
    if parts.len() == 0 {
        Seq::empty()
    } else if parts.len() == 1 {
        parts[0]
    } else {
        parts[0] + sep + spec_join(parts.skip(1), sep)
    }
}

proof fn lemma_join_push(parts: Seq<Seq<char>>, x: Seq<char>, sep: Seq<char>)
    ensures
        parts.len() == 0 ==> spec_join(parts.push(x), sep) == x,
        parts.len() > 0 ==> spec_join(parts.push(x), sep) == spec_join(parts, sep) + sep + x,
    decreases parts.len(),
{
    let p = parts.push(x);
    if parts.len() == 0 {
        assert(p[0] == x);
    } else if parts.len() == 1 {
        assert(p.skip(1) =~= seq![x]);
        assert(spec_join(p.skip(1), sep) == x);
    } else {
        lemma_join_push(parts.skip(1), x, sep);
        assert(p.skip(1) =~= parts.skip(1).push(x));
        assert(spec_join(parts.skip(1).push(x), sep) == spec_join(parts.skip(1), sep) + sep + x);
        assert(p[0] + sep + (spec_join(parts.skip(1), sep) + sep + x) =~= (parts[0] + sep
            + spec_join(parts.skip(1), sep)) + sep + x);
    }
}

/// The parts joined into one string with `sep` between each neighbouring
/// pair.
pub fn join_with(parts: &Vec<String>, sep: &str) -> (r: String)
    ensures
        r@ == spec_join(parts.deep_view(), sep@),
{
    let mut acc: String = String::new();
    let mut i: usize = 0;
    proof {
        assert(parts.deep_view().take(0) =~= Seq::<Seq<char>>::empty());
    }
    while i < parts.len()
        invariant
            0 <= i <= parts.len(),
            acc@ == spec_join(parts.deep_view().take(i as int), sep@),
        decreases parts.len() - i,
    {
        if i > 0 {
            acc.append(sep);
        }
        acc.append(parts[i].as_str());
        proof {
            let pv = parts.deep_view();
            lemma_join_push(pv.take(i as int), pv[i as int], sep@);
            assert(pv.take(i + 1) =~= pv.take(i as int).push(pv[i as int]));
        }
        i = i + 1;
    }
    proof {
        assert(parts.deep_view().take(parts.len() as int) =~= parts.deep_view());
    }
    acc
}

/// Whether `p` stands at the start of `s`.
pub open spec fn is_prefix(p: Seq<char>, s: Seq<char>) -> bool {
    p.len() <= s.len() && s.take(p.len() as int) == p
}

/// Whether `s` begins with the string `p`.
pub fn has_prefix(s: &str, p: &str) -> (r: bool)
    ensures
        r == is_prefix(p@, s@),
{
    let np: usize = p.unicode_len();
    let ns: usize = s.unicode_len();
    if np > ns {
        proof {
            assert(!is_prefix(p@, s@));
        }
        return false;
    }
    let mut i: usize = 0;
    while i < np
        invariant
            0 <= i <= np <= ns,
            np == p@.len(),
            ns == s@.len(),
            forall|k: int| 0 <= k < i ==> s@[k] == p@[k],
        decreases np - i,
    {
        if s.get_char(i) != p.get_char(i) {
            proof {
                assert(s@.take(np as int)[i as int] != p@[i as int]);
            }
            return false;
        }
        i = i + 1;
    }
    proof {
        assert(s@.take(np as int) =~= p@);
    }
    true
}

/// Whether `s` begins with the character `c`.
pub fn head_is(s: &str, c: char) -> (r: bool)
    ensures
        r == (s@.len() > 0 && s@[0] == c),
{
    s.unicode_len() > 0 && s.get_char(0) == c
}

/// Relies on `str`'s `PartialEq`: two string slices are equal exactly when
/// their character sequences are.
#[verifier::external_body]
pub fn str_eq(a: &str, b: &str) -> (r: bool)
    ensures
        r == (a@ == b@),
{
    a == b
}

/// Whether `needle` stands in `hay` as a contiguous run beginning at `i`.
pub open spec fn occurs_at(hay: Seq<char>, needle: Seq<char>, i: int) -> bool {
    0 <= i && i + needle.len() <= hay.len() && hay.subrange(i, i + needle.len()) == needle
}

/// Whether `needle` stands somewhere in `hay` as a contiguous run.
pub open spec fn is_substring(hay: Seq<char>, needle: Seq<char>) -> bool {
    exists|i: int| occurs_at(hay, needle, i)
}

/// A run in the right half of a concatenation is a run in the whole.
pub proof fn lemma_occurs_in_right(a: Seq<char>, b: Seq<char>, x: Seq<char>, i: int)
    requires
        occurs_at(b, x, i),
    ensures
        occurs_at(a + b, x, a.len() + i),
{
    assert((a + b).subrange(a.len() + i, a.len() + i + x.len()) =~= b.subrange(i, i + x.len()));
}

/// A run in the left half of a concatenation is a run in the whole.
pub proof fn lemma_occurs_in_left(a: Seq<char>, b: Seq<char>, x: Seq<char>, i: int)
    requires
        occurs_at(a, x, i),
    ensures
        occurs_at(a + b, x, i),
{
    assert((a + b).subrange(i, i + x.len()) =~= a.subrange(i, i + x.len()));
}

/// Law: joining keeps every part; each part of `parts` stands whole
/// somewhere in `spec_join(parts, sep)`.
pub proof fn lemma_join_contains_each(parts: Seq<Seq<char>>, sep: Seq<char>)
    ensures
        forall|k: int|
            0 <= k < parts.len() ==> is_substring(spec_join(parts, sep), parts[k]),
    decreases parts.len(),
{
    if parts.len() == 1 {
        assert(spec_join(parts, sep).subrange(0, parts[0].len() as int) =~= parts[0]);
        assert(occurs_at(spec_join(parts, sep), parts[0], 0));
    } else if parts.len() > 1 {
        let head = parts[0] + sep;
        let tail = spec_join(parts.skip(1), sep);
        assert(spec_join(parts, sep) =~= head + tail);
        lemma_join_contains_each(parts.skip(1), sep);
        assert forall|k: int|
            0 <= k < parts.len() implies is_substring(spec_join(parts, sep), parts[k]) by {
            if k == 0 {
                assert(head.subrange(0, parts[0].len() as int) =~= parts[0]);
                assert(occurs_at(head, parts[0], 0));
                lemma_occurs_in_left(head, tail, parts[0], 0);
                assert(occurs_at(head + tail, parts[0], 0));
            } else {
                assert(is_substring(tail, parts.skip(1)[k - 1]));
                let i = choose|i: int| #[trigger] occurs_at(tail, parts.skip(1)[k - 1], i);
                lemma_occurs_in_right(head, tail, parts[k], i);
                assert(occurs_at(head + tail, parts[k], head.len() + i));
            }
        }
    }
}

} // verus!
