//! Subtitle files: finding the cues of SubRip, WebVTT and ASS texts.

use crate::render::{joined, string_views};
use crate::text::{contains_seq, is_whitespace_char, occurs_at, push_char, replace_all};
use vstd::prelude::*;
use vstd::string::*;

verus! {

/// The characters of a text.
pub fn chars_of(s: &str) -> (r: Vec<char>)
    ensures
        r@ == s@,
{
    let mut out: Vec<char> = Vec::new();
    broadcast use vstd::string::axiom_spec_iter;
    for c in iter: s.chars()
        invariant
            out@ == iter.seq().take(iter.index() as int),
    {
        out.push(c);
    }
    out
}

/// The views of a sequence of character vectors.
pub open spec fn char_views(v: Seq<Vec<char>>) -> Seq<Seq<char>> {
    v.map_values(|x: Vec<char>| x@)
}

fn push_view(out: &mut Vec<Vec<char>>, item: Vec<char>)
    ensures
        char_views(final(out)@) == char_views(old(out)@).push(item@),
{
    let ghost before = out@;
    out.push(item);
    assert(char_views(out@) =~= char_views(before).push(item@));
}

/// The characters from `start` up to `end`.
fn slice_vec(s: &[char], start: usize, end: usize) -> (r: Vec<char>)
    requires
        start <= end <= s@.len(),
    ensures
        r@ == s@.subrange(start as int, end as int),
{
    let mut out: Vec<char> = Vec::new();
    let mut i = start;
    while i < end
        invariant
            start <= i <= end <= s@.len(),
            out@ == s@.subrange(start as int, i as int),
        decreases end - i,
    {
        out.push(s[i]);
        assert(out@ =~= s@.subrange(start as int, i + 1));
        i = i + 1;
    }
    out
}

/// A line ended by a newline loses the `\r` just before the newline.
pub open spec fn without_cr(line: Seq<char>) -> Seq<char> {
    if line.len() > 0 && line.last() == '\r' {
        line.drop_last()
    } else {
        line
    }
}

/// The lines of `s`, read after the partial line `current`, as
/// `str::lines` gives them: split at each `\n` (dropping a `\r` just
/// before it), with no empty line after a final `\n`.
pub open spec fn lines_from(s: Seq<char>, current: Seq<char>) -> Seq<Seq<char>>
    decreases s.len(),
{
    if s.len() == 0 {
        if current.len() == 0 {
            Seq::empty()
        } else {
            seq![current]
        }
    } else if s[0] == '\n' {
        seq![without_cr(current)] + lines_from(s.skip(1), Seq::empty())
    } else {
        lines_from(s.skip(1), current.push(s[0]))
    }
}

/// The lines of a text, as `str::lines` gives them.
pub open spec fn lines_of(s: Seq<char>) -> Seq<Seq<char>> {
    lines_from(s, Seq::empty())
}

/// The lines of a text, as `str::lines` gives them.
pub fn lines_vec(s: &[char]) -> (r: Vec<Vec<char>>)
    ensures
        char_views(r@) == lines_of(s@),
{
    let mut out: Vec<Vec<char>> = Vec::new();
    let mut start: usize = 0;
    let mut i: usize = 0;
    assert(s@.skip(0) =~= s@);
    assert(s@.subrange(0, 0) =~= Seq::<char>::empty());
    while i < s.len()
        invariant
            start <= i <= s@.len(),
            char_views(out@) + lines_from(s@.skip(i as int), s@.subrange(start as int, i as int)) == lines_of(s@),
        decreases s.len() - i,
    {
        let ghost current = s@.subrange(start as int, i as int);
        let ghost before = char_views(out@);
        assert(s@.skip(i as int)[0] == s@[i as int]);
        assert(s@.skip(i as int).skip(1) =~= s@.skip(i + 1));
        if s[i] == '\n' {
            let mut end = i;
            if end > start && s[end - 1] == '\r' {
                end = end - 1;
            }
            let line = slice_vec(s, start, end);
            assert(line@ =~= without_cr(current));
            push_view(&mut out, line);
            assert(s@.subrange(i + 1, i + 1) =~= Seq::<char>::empty());
            assert(char_views(out@) + lines_from(s@.skip(i + 1), Seq::empty()) =~= before + lines_from(
                s@.skip(i as int),
                current,
            ));
            start = i + 1;
        } else {
            assert(s@.subrange(start as int, i + 1) =~= current.push(s@[i as int]));
        }
        i = i + 1;
    }
    let ghost current = s@.subrange(start as int, i as int);
    assert(s@.skip(i as int) =~= Seq::<char>::empty());
    if start < s.len() {
        let ghost before = char_views(out@);
        let line = slice_vec(s, start, s.len());
        push_view(&mut out, line);
        assert(char_views(out@) =~= before + lines_from(s@.skip(i as int), current));
    } else {
        assert(char_views(out@) =~= char_views(out@) + lines_from(s@.skip(i as int), current));
    }
    out
}

/// `s` without its leading white space.
pub open spec fn trim_start_seq(s: Seq<char>) -> Seq<char>
    decreases s.len(),
{
    if s.len() > 0 && is_whitespace_char(s[0]) {
        trim_start_seq(s.skip(1))
    } else {
        s
    }
}

/// `s` without its trailing white space.
pub open spec fn trim_end_seq(s: Seq<char>) -> Seq<char>
    decreases s.len(),
{
    if s.len() > 0 && is_whitespace_char(s.last()) {
        trim_end_seq(s.drop_last())
    } else {
        s
    }
}

/// `str::trim`: `s` without leading and trailing white space.
pub open spec fn trim_seq(s: Seq<char>) -> Seq<char> {
    trim_end_seq(trim_start_seq(s))
}

fn trim_start_from(s: &[char]) -> (r: usize)
    ensures
        r <= s@.len(),
        trim_start_seq(s@) == s@.skip(r as int),
{
    let mut a: usize = 0;
    assert(s@.skip(0) =~= s@);
    while a < s.len() && crate::text::char_is_whitespace(s[a])
        invariant
            a <= s@.len(),
            trim_start_seq(s@) == trim_start_seq(s@.skip(a as int)),
        decreases s.len() - a,
    {
        assert(s@.skip(a as int)[0] == s@[a as int]);
        assert(s@.skip(a as int).skip(1) =~= s@.skip(a + 1));
        a = a + 1;
    }
    if a < s.len() {
        assert(s@.skip(a as int)[0] == s@[a as int]);
    }
    a
}

/// `str::trim`.
pub fn trim_vec(s: &[char]) -> (r: Vec<char>)
    ensures
        r@ == trim_seq(s@),
{
    let a = trim_start_from(s);
    let ghost t = s@.skip(a as int);
    let mut b: usize = s.len();
    assert(t.take((b - a) as int) =~= t);
    while b > a && crate::text::char_is_whitespace(s[b - 1])
        invariant
            a <= b <= s@.len(),
            t == s@.skip(a as int),
            trim_end_seq(t) == trim_end_seq(t.take(b - a)),
        decreases b,
    {
        assert(t.take(b - a).last() == s@[b - 1]);
        assert(t.take(b - a).drop_last() =~= t.take(b - 1 - a));
        b = b - 1;
    }
    if b > a {
        assert(t.take(b - a).last() == s@[b - 1]);
    }
    let r = slice_vec(s, a, b);
    assert(r@ =~= t.take(b - a));
    r
}

/// The pieces of `s` between the occurrences of `sep` (found from the left,
/// none overlapping), read after the partial piece `current`, as
/// `str::split` with a nonempty text pattern gives them.
pub open spec fn split_from(s: Seq<char>, sep: Seq<char>, current: Seq<char>) -> Seq<Seq<char>>
    decreases s.len(),
{
    if s.len() == 0 {
        seq![current]
    } else if sep.len() > 0 && s.len() >= sep.len() && s.take(sep.len() as int) == sep {
        seq![current] + split_from(s.skip(sep.len() as int), sep, Seq::empty())
    } else {
        split_from(s.skip(1), sep, current.push(s[0]))
    }
}

/// The pieces of `s` between the occurrences of `sep`.
pub open spec fn split_seq(s: Seq<char>, sep: Seq<char>) -> Seq<Seq<char>> {
    split_from(s, sep, Seq::empty())
}

proof fn lemma_split_nonempty(s: Seq<char>, sep: Seq<char>, current: Seq<char>)
    ensures
        split_from(s, sep, current).len() >= 1,
    decreases s.len(),
{
    if s.len() == 0 {
    } else if sep.len() > 0 && s.len() >= sep.len() && s.take(sep.len() as int) == sep {
        lemma_split_nonempty(s.skip(sep.len() as int), sep, Seq::empty());
    } else {
        lemma_split_nonempty(s.skip(1), sep, current.push(s[0]));
    }
}

/// Whether `sep` occurs in `s` at position `at`.
fn matches_at(s: &[char], at: usize, sep: &[char]) -> (r: bool)
    requires
        at <= s@.len(),
    ensures
        r == (s@.len() - at >= sep@.len() && s@.skip(at as int).take(sep@.len() as int) == sep@),
{
    let n = s.len();
    if n - at < sep.len() {
        return false;
    }
    let mut k: usize = 0;
    while k < sep.len()
        invariant
            n == s@.len(),
            at <= s@.len(),
            s@.len() - at >= sep@.len(),
            k <= sep@.len(),
            forall|j: int| 0 <= j < k ==> s@[at + j] == sep@[j],
        decreases sep.len() - k,
    {
        if s[at + k] != sep[k] {
            assert(s@.skip(at as int).take(sep@.len() as int)[k as int] != sep@[k as int]);
            return false;
        }
        k = k + 1;
    }
    assert(s@.skip(at as int).take(sep@.len() as int) =~= sep@);
    true
}

/// `s.split(sep)` for a nonempty `sep`.
pub fn split_vec(s: &[char], sep: &[char]) -> (r: Vec<Vec<char>>)
    requires
        sep@.len() > 0,
    ensures
        char_views(r@) == split_seq(s@, sep@),
{
    let mut out: Vec<Vec<char>> = Vec::new();
    let mut start: usize = 0;
    let mut i: usize = 0;
    assert(s@.skip(0) =~= s@);
    assert(s@.subrange(0, 0) =~= Seq::<char>::empty());
    while i < s.len()
        invariant
            sep@.len() > 0,
            start <= i <= s@.len(),
            char_views(out@) + split_from(s@.skip(i as int), sep@, s@.subrange(start as int, i as int))
                == split_seq(s@, sep@),
        decreases s.len() - i,
    {
        let ghost current = s@.subrange(start as int, i as int);
        let ghost rest = s@.skip(i as int);
        let ghost before = char_views(out@);
        assert(rest[0] == s@[i as int]);
        if matches_at(s, i, sep) {
            let piece = slice_vec(s, start, i);
            push_view(&mut out, piece);
            let next = i + sep.len();
            assert(rest.skip(sep@.len() as int) =~= s@.skip(next as int));
            assert(s@.subrange(next as int, next as int) =~= Seq::<char>::empty());
            assert(char_views(out@) + split_from(s@.skip(next as int), sep@, Seq::empty()) =~= before
                + split_from(rest, sep@, current));
            start = next;
            i = next;
        } else {
            assert(rest.skip(1) =~= s@.skip(i + 1));
            assert(s@.subrange(start as int, i + 1) =~= current.push(s@[i as int]));
            i = i + 1;
        }
    }
    let ghost before = char_views(out@);
    let ghost current = s@.subrange(start as int, i as int);
    assert(s@.skip(i as int) =~= Seq::<char>::empty());
    let piece = slice_vec(s, start, s.len());
    push_view(&mut out, piece);
    assert(char_views(out@) =~= before + split_from(s@.skip(i as int), sep@, current));
    out
}

/// The at most `pieces` pieces of `s` between occurrences of `c`, the last
/// piece holding the rest, read after the partial piece `current`: what
/// `str::splitn` gives.
pub open spec fn splitn_from(s: Seq<char>, pieces: nat, c: char, current: Seq<char>) -> Seq<Seq<char>>
    decreases s.len(),
{
    if s.len() == 0 {
        seq![current]
    } else if pieces > 1 && s[0] == c {
        seq![current] + splitn_from(s.skip(1), (pieces - 1) as nat, c, Seq::empty())
    } else {
        splitn_from(s.skip(1), pieces, c, current.push(s[0]))
    }
}

/// `s.splitn(pieces, c)` for at least one piece.
pub fn splitn_vec(s: &[char], pieces: usize, c: char) -> (r: Vec<Vec<char>>)
    requires
        pieces >= 1,
    ensures
        char_views(r@) == splitn_from(s@, pieces as nat, c, Seq::empty()),
{
    let mut out: Vec<Vec<char>> = Vec::new();
    let mut left = pieces;
    let mut start: usize = 0;
    let mut i: usize = 0;
    assert(s@.skip(0) =~= s@);
    assert(s@.subrange(0, 0) =~= Seq::<char>::empty());
    while i < s.len()
        invariant
            left >= 1,
            start <= i <= s@.len(),
            char_views(out@) + splitn_from(s@.skip(i as int), left as nat, c, s@.subrange(start as int, i as int))
                == splitn_from(s@, pieces as nat, c, Seq::empty()),
        decreases s.len() - i,
    {
        let ghost current = s@.subrange(start as int, i as int);
        let ghost rest = s@.skip(i as int);
        let ghost before = char_views(out@);
        assert(rest[0] == s@[i as int]);
        assert(rest.skip(1) =~= s@.skip(i + 1));
        if left > 1 && s[i] == c {
            let piece = slice_vec(s, start, i);
            push_view(&mut out, piece);
            assert(s@.subrange(i + 1, i + 1) =~= Seq::<char>::empty());
            assert(char_views(out@) + splitn_from(s@.skip(i + 1), (left - 1) as nat, c, Seq::empty())
                =~= before + splitn_from(rest, left as nat, c, current));
            left = left - 1;
            start = i + 1;
        } else {
            assert(s@.subrange(start as int, i + 1) =~= current.push(s@[i as int]));
        }
        i = i + 1;
    }
    let ghost before = char_views(out@);
    let ghost current = s@.subrange(start as int, i as int);
    assert(s@.skip(i as int) =~= Seq::<char>::empty());
    let piece = slice_vec(s, start, s.len());
    push_view(&mut out, piece);
    assert(char_views(out@) =~= before + splitn_from(s@.skip(i as int), left as nat, c, current));
    out
}

/// The leading run of non-white-space characters of `s`.
pub open spec fn leading_word(s: Seq<char>) -> Seq<char>
    decreases s.len(),
{
    if s.len() == 0 || is_whitespace_char(s[0]) {
        Seq::empty()
    } else {
        seq![s[0]] + leading_word(s.skip(1))
    }
}

/// The first item of `s.split_whitespace()`, if any.
pub open spec fn first_word(s: Seq<char>) -> Option<Seq<char>> {
    let t = trim_start_seq(s);
    if t.len() == 0 {
        None
    } else {
        Some(leading_word(t))
    }
}

/// The first item of `s.split_whitespace()`, if any.
pub fn first_word_vec(s: &[char]) -> (r: Option<Vec<char>>)
    ensures
        match first_word(s@) {
            Some(w) => r matches Some(v) && v@ == w,
            None => r is None,
        },
{
    let a = trim_start_from(s);
    if a == s.len() {
        return None;
    }
    let ghost t = s@.skip(a as int);
    let mut b: usize = a;
    assert(t.skip(0) =~= t);
    assert(s@.subrange(a as int, a as int) =~= Seq::<char>::empty());
    while b < s.len() && !crate::text::char_is_whitespace(s[b])
        invariant
            a <= b <= s@.len(),
            t == s@.skip(a as int),
            leading_word(t) == s@.subrange(a as int, b as int) + leading_word(s@.skip(b as int)),
        decreases s.len() - b,
    {
        assert(s@.skip(b as int)[0] == s@[b as int]);
        assert(s@.skip(b as int).skip(1) =~= s@.skip(b + 1));
        assert(s@.subrange(a as int, b + 1) =~= s@.subrange(a as int, b as int) + seq![s@[b as int]]);
        b = b + 1;
    }
    if b < s.len() {
        assert(s@.skip(b as int)[0] == s@[b as int]);
    } else {
        assert(s@.skip(b as int) =~= Seq::<char>::empty());
    }
    let r = slice_vec(s, a, b);
    assert(r@ =~= leading_word(t));
    Some(r)
}

/// The text of the characters.
fn string_of(v: &[char]) -> (r: String)
    ensures
        r@ == v@,
{
    let mut out = String::new();
    let mut i: usize = 0;
    while i < v.len()
        invariant
            i <= v@.len(),
            out@ == v@.take(i as int),
        decreases v.len() - i,
    {
        push_char(&mut out, v[i]);
        assert(out@ =~= v@.take(i + 1));
        i = i + 1;
    }
    assert(v@.take(i as int) =~= v@);
    out
}

/// The texts of the character vectors.
fn strings_of(v: &Vec<Vec<char>>) -> (r: Vec<String>)
    ensures
        string_views(r@) == char_views(v@),
{
    let mut out: Vec<String> = Vec::new();
    let mut i: usize = 0;
    while i < v.len()
        invariant
            i <= v@.len(),
            string_views(out@) == char_views(v@).take(i as int),
        decreases v.len() - i,
    {
        let ghost before = out@;
        assert(char_views(v@)[i as int] == v@[i as int]@);
        let text = string_of(v[i].as_slice());
        assert(text@ == v@[i as int]@);
        out.push(text);
        assert(string_views(out@) =~= string_views(before).push(v@[i as int]@));
        assert(char_views(v@).take(i + 1) =~= char_views(v@).take(i as int).push(v@[i as int]@));
        assert(string_views(out@) =~= char_views(v@).take(i + 1));
        i = i + 1;
    }
    assert(char_views(v@).take(i as int) =~= char_views(v@));
    out
}

/// Whether two character sequences are equal.
fn same_chars(a: &[char], b: &[char]) -> (r: bool)
    ensures
        r == (a@ == b@),
{
    if a.len() != b.len() {
        return false;
    }
    let r = matches_at(a, 0, b);
    assert(a@.skip(0).take(b@.len() as int) =~= a@);
    r
}

/// `s.replace(pat, rep)` for a nonempty `pat`; `s` unchanged for an empty
/// one.
pub fn replace_vec(s: &[char], pat: &[char], rep: &[char]) -> (r: Vec<char>)
    ensures
        r@ == replace_all(s@, pat@, rep@),
{
    let n = s.len();
    let m = pat.len();
    let mut out: Vec<char> = Vec::new();
    let mut i: usize = 0;
    assert(s@.skip(0) =~= s@);
    while i < n
        invariant
            n == s@.len(),
            m == pat@.len(),
            i <= n,
            out@ + replace_all(s@.skip(i as int), pat@, rep@) == replace_all(s@, pat@, rep@),
        decreases n - i,
    {
        let ghost rest = s@.skip(i as int);
        let ghost before = out@;
        assert(rest[0] == s@[i as int]);
        if m > 0 && matches_at(s, i, pat) {
            assert(rest.skip(m as int) =~= s@.skip(i + m));
            let mut k: usize = 0;
            while k < rep.len()
                invariant
                    k <= rep@.len(),
                    out@ == before + rep@.take(k as int),
                decreases rep.len() - k,
            {
                out.push(rep[k]);
                assert(out@ =~= before + rep@.take(k + 1));
                k = k + 1;
            }
            assert(rep@.take(k as int) =~= rep@);
            assert(out@ + replace_all(s@.skip(i + m), pat@, rep@) =~= before + replace_all(rest, pat@, rep@));
            i = i + m;
        } else {
            assert(rest.skip(1) =~= s@.skip(i + 1));
            out.push(s[i]);
            assert(out@ + replace_all(s@.skip(i + 1), pat@, rep@) =~= before + replace_all(rest, pat@, rep@));
            i = i + 1;
        }
    }
    assert(out@ + replace_all(s@.skip(n as int), pat@, rep@) =~= out@);
    out
}

/// Whether `needle` occurs in `s`.
fn contains_vec(s: &[char], needle: &[char]) -> (r: bool)
    ensures
        r == contains_seq(s@, needle@),
{
    let mut at: usize = 0;
    while at < s.len()
        invariant
            at <= s@.len(),
            forall|j: int| 0 <= j < at ==> !occurs_at(s@, needle@, j),
        decreases s.len() - at,
    {
        let found = matches_at(s, at, needle);
        proof {
            if s@.len() - at >= needle@.len() {
                assert(s@.skip(at as int).take(needle@.len() as int) =~= s@.subrange(at as int, at + needle@.len()));
            }
        }
        if found {
            assert(occurs_at(s@, needle@, at as int));
            return true;
        }
        at = at + 1;
    }
    let found = matches_at(s, at, needle);
    proof {
        if s@.len() - at >= needle@.len() {
            assert(s@.skip(at as int).take(needle@.len() as int) =~= s@.subrange(at as int, at + needle@.len()));
        }
    }
    if found {
        assert(occurs_at(s@, needle@, at as int));
        return true;
    }
    proof {
        assert forall|j: int| !occurs_at(s@, needle@, j) by {
            if 0 <= j < at {
            } else if j == at {
            } else {
            }
        }
    }
    false
}

/// Decimal commas turned into points: `s.replace(',', ".")`.
pub open spec fn decimal_points(s: Seq<char>) -> Seq<char> {
    s.map_values(|c: char| if c == ',' { '.' } else { c })
}

/// The parts of a timestamp `[hours:]minutes:seconds` (decimal commas
/// turned into points), when it has two or three.
pub open spec fn timestamp_parts(v: Seq<char>) -> Option<Seq<Seq<char>>> {
    let parts = split_seq(decimal_points(v), seq![':']);
    if parts.len() == 2 || parts.len() == 3 {
        Some(parts)
    } else {
        None
    }
}

fn timestamp_vec(v: &[char]) -> (r: Option<Vec<Vec<char>>>)
    ensures
        match timestamp_parts(v@) {
            Some(p) => r matches Some(x) && char_views(x@) == p,
            None => r is None,
        },
{
    let mut normalized: Vec<char> = Vec::new();
    let mut i: usize = 0;
    while i < v.len()
        invariant
            i <= v@.len(),
            normalized@ == decimal_points(v@.take(i as int)),
        decreases v.len() - i,
    {
        let c = if v[i] == ',' {
            '.'
        } else {
            v[i]
        };
        normalized.push(c);
        assert(normalized@ =~= decimal_points(v@.take(i + 1)));
        i = i + 1;
    }
    assert(v@.take(i as int) =~= v@);
    let colon = [':'];
    assert(colon@ =~= seq![':']);
    let parts = split_vec(normalized.as_slice(), &colon);
    if parts.len() == 2 || parts.len() == 3 {
        Some(parts)
    } else {
        None
    }
}

/// The start and end timestamps of a cue timing line `start --> end ...`.
pub open spec fn time_range(t: Seq<char>) -> Option<(Seq<Seq<char>>, Seq<Seq<char>>)> {
    let pieces = split_seq(t, "-->"@);
    match timestamp_parts(trim_seq(pieces[0])) {
        None => None,
        Some(start) => if pieces.len() < 2 {
            None
        } else {
            match first_word(pieces[1]) {
                None => None,
                Some(w) => match timestamp_parts(w) {
                    None => None,
                    Some(end) => Some((start, end)),
                },
            }
        },
    }
}

fn time_range_vec(t: &[char]) -> (r: Option<(Vec<Vec<char>>, Vec<Vec<char>>)>)
    ensures
        match time_range(t@) {
            Some((a, b)) => r matches Some((x, y)) && char_views(x@) == a && char_views(y@) == b,
            None => r is None,
        },
{
    let arrow = chars_of("-->");
    proof {
        reveal_strlit("-->");
        lemma_split_nonempty(t@, arrow@, Seq::empty());
    }
    let pieces = split_vec(t, arrow.as_slice());
    assert(char_views(pieces@)[0] == pieces@[0]@);
    let first = trim_vec(pieces[0].as_slice());
    let start = match timestamp_vec(first.as_slice()) {
        Some(p) => p,
        None => {
            return None;
        },
    };
    if pieces.len() < 2 {
        return None;
    }
    assert(char_views(pieces@)[1] == pieces@[1]@);
    let word = match first_word_vec(pieces[1].as_slice()) {
        Some(w) => w,
        None => {
            return None;
        },
    };
    match timestamp_vec(word.as_slice()) {
        Some(end) => Some((start, end)),
        None => None,
    }
}

/// A cue as parsed: the parts of its start and end timestamps, and its
/// text.
pub type CueParts = (Seq<Seq<char>>, Seq<Seq<char>>, Seq<char>);

/// A cue of a subtitle file: the parts of its start and end timestamps
/// (`[hours:]minutes:seconds`, split at the colons, decimal commas turned
/// into points) and its text.
#[derive(Debug, Clone, PartialEq, Eq)]
pub struct SubtitleCue {
    pub start: Vec<String>,
    pub end: Vec<String>,
    pub text: String,
}

/// The parsed view of a cue.
pub open spec fn cue_view(c: SubtitleCue) -> CueParts {
    (string_views(c.start@), string_views(c.end@), c.text@)
}

/// The trimmed lines of a cue block, without blank lines and `WEBVTT`.
pub open spec fn kept_lines(lines: Seq<Seq<char>>) -> Seq<Seq<char>>
    decreases lines.len(),
{
    if lines.len() == 0 {
        Seq::empty()
    } else {
        let t = trim_seq(lines[0]);
        let rest = kept_lines(lines.skip(1));
        if t.len() > 0 && t != "WEBVTT"@ {
            seq![t] + rest
        } else {
            rest
        }
    }
}

/// The cue of a block's kept lines: the timing line is the first line when
/// it holds `-->`, else the second; the lines after it, joined by
/// newlines, are the text, which must not be empty.
pub open spec fn cue_of_lines(k: Seq<Seq<char>>) -> Option<CueParts> {
    if k.len() == 0 {
        None
    } else {
        let first_is_timing = contains_seq(k[0], "-->"@);
        if !first_is_timing && k.len() < 2 {
            None
        } else {
            let timing = if first_is_timing {
                k[0]
            } else {
                k[1]
            };
            let rest = if first_is_timing {
                k.skip(1)
            } else {
                k.skip(2)
            };
            match time_range(timing) {
                None => None,
                Some((a, b)) => {
                    let text = joined(rest, seq!['\n']);
                    if text.len() == 0 {
                        None
                    } else {
                        Some((a, b, text))
                    }
                },
            }
        }
    }
}

/// The cues of SubRip or WebVTT blocks, in order.
pub open spec fn block_cues(blocks: Seq<Seq<char>>) -> Seq<CueParts>
    decreases blocks.len(),
{
    if blocks.len() == 0 {
        Seq::empty()
    } else {
        let rest = block_cues(blocks.skip(1));
        match cue_of_lines(kept_lines(lines_of(blocks[0]))) {
            Some(c) => seq![c] + rest,
            None => rest,
        }
    }
}

/// The cues of a SubRip or WebVTT text: its blocks are separated by blank
/// lines (after `\r\n` is turned into `\n`).
pub open spec fn srt_or_vtt_cues(input: Seq<char>) -> Seq<CueParts> {
    block_cues(split_seq(replace_all(input, "\r\n"@, "\n"@), "\n\n"@))
}

/// The text of an ASS dialogue: `\N` and `\n` become newlines and the
/// italic tags are dropped.
pub open spec fn dialogue_text(f: Seq<char>) -> Seq<char> {
    replace_all(
        replace_all(replace_all(replace_all(f, "\\N"@, "\n"@), "\\n"@, "\n"@), "{\\i1}"@, ""@),
        "{\\i0}"@,
        ""@,
    )
}

/// The cue of an ASS `Dialogue:` line: the second and third of its ten
/// comma-separated fields are the timestamps, the tenth is the text.
pub open spec fn ass_line_cue(line: Seq<char>) -> Option<CueParts> {
    let t = trim_seq(line);
    if t.len() < 9 || t.take(9) != "Dialogue:"@ {
        None
    } else {
        let fields = splitn_from(trim_seq(t.skip(9)), 10, ',', Seq::empty());
        if fields.len() < 10 {
            None
        } else {
            match timestamp_parts(trim_seq(fields[1])) {
                None => None,
                Some(a) => match timestamp_parts(trim_seq(fields[2])) {
                    None => None,
                    Some(b) => Some((a, b, dialogue_text(fields[9]))),
                },
            }
        }
    }
}

/// The cues of ASS lines, in order.
pub open spec fn ass_cues(lines: Seq<Seq<char>>) -> Seq<CueParts>
    decreases lines.len(),
{
    if lines.len() == 0 {
        Seq::empty()
    } else {
        let rest = ass_cues(lines.skip(1));
        match ass_line_cue(lines[0]) {
            Some(c) => seq![c] + rest,
            None => rest,
        }
    }
}

/// The ASS cues of some lines followed by more lines are the cues of the
/// first lines followed by the cues of the others: every well-formed
/// dialogue line gives its cue, in order, wherever it stands.
pub proof fn law_ass_cues_concat(a: Seq<Seq<char>>, b: Seq<Seq<char>>)
    ensures
        ass_cues(a + b) == ass_cues(a) + ass_cues(b),
    decreases a.len(),
{
    if a.len() == 0 {
        assert(a + b =~= b);
        assert(ass_cues(a) + ass_cues(b) =~= ass_cues(b));
    } else {
        law_ass_cues_concat(a.skip(1), b);
        assert((a + b).skip(1) =~= a.skip(1) + b);
        assert((a + b)[0] == a[0]);
        match ass_line_cue(a[0]) {
            Some(c) => {
                assert(seq![c] + (ass_cues(a.skip(1)) + ass_cues(b)) =~= seq![c] + ass_cues(a.skip(1)) + ass_cues(b));
            },
            None => {},
        }
    }
}

/// A single line gives exactly its own cue when it is a well-formed
/// dialogue line, and no cue otherwise.
pub proof fn law_ass_cues_single(line: Seq<char>)
    ensures
        ass_cues(seq![line]) == (match ass_line_cue(line) {
            Some(c) => seq![c],
            None => Seq::<CueParts>::empty(),
        }),
{
    assert(seq![line].skip(1) =~= Seq::<Seq<char>>::empty());
    assert(seq![line][0] == line);
    assert(ass_cues(Seq::<Seq<char>>::empty()) == Seq::<CueParts>::empty());
    match ass_line_cue(line) {
        Some(c) => {
            assert(seq![c] + Seq::<CueParts>::empty() =~= seq![c]);
        },
        None => {},
    }
}

/// A line that starts, after white space, with `Dialogue:`.
pub open spec fn is_dialogue_line(line: Seq<char>) -> bool {
    let t = trim_start_seq(line);
    t.len() >= 9 && t.take(9) == "Dialogue:"@
}

/// The text is an ASS script: some line is a dialogue line.
pub open spec fn has_dialogue(input: Seq<char>) -> bool {
    exists|i: int| 0 <= i < lines_of(input).len() && is_dialogue_line(#[trigger] lines_of(input)[i])
}

/// The cues of a subtitle text: ASS when a line is a dialogue line, else
/// SubRip or WebVTT.
pub open spec fn subtitle_cues(input: Seq<char>) -> Seq<CueParts> {
    if has_dialogue(input) {
        ass_cues(lines_of(input))
    } else {
        srt_or_vtt_cues(input)
    }
}

fn kept_lines_vec(lines: &Vec<Vec<char>>) -> (r: Vec<Vec<char>>)
    ensures
        char_views(r@) == kept_lines(char_views(lines@)),
{
    let ghost all = char_views(lines@);
    let webvtt = chars_of("WEBVTT");
    let mut out: Vec<Vec<char>> = Vec::new();
    let mut i: usize = 0;
    assert(all.skip(0) =~= all);
    while i < lines.len()
        invariant
            i <= lines@.len(),
            all == char_views(lines@),
            webvtt@ == "WEBVTT"@,
            char_views(out@) + kept_lines(all.skip(i as int)) == kept_lines(all),
        decreases lines.len() - i,
    {
        let ghost before = char_views(out@);
        assert(all.skip(i as int)[0] == lines@[i as int]@);
        assert(all.skip(i as int).skip(1) =~= all.skip(i + 1));
        let t = trim_vec(lines[i].as_slice());
        if t.len() > 0 && !same_chars(t.as_slice(), webvtt.as_slice()) {
            let ghost tv = t@;
            push_view(&mut out, t);
            assert(char_views(out@) + kept_lines(all.skip(i + 1)) =~= before + kept_lines(all.skip(i as int)));
        }
        i = i + 1;
    }
    assert(all.skip(i as int) =~= Seq::<Seq<char>>::empty());
    assert(char_views(out@) =~= char_views(out@) + kept_lines(all.skip(i as int)));
    out
}

fn join_lines(lines: &Vec<Vec<char>>, from: usize) -> (r: Vec<char>)
    requires
        from <= lines@.len(),
    ensures
        r@ == joined(char_views(lines@).skip(from as int), seq!['\n']),
{
    let ghost all = char_views(lines@).skip(from as int);
    let mut out: Vec<char> = Vec::new();
    let mut i: usize = from;
    assert(all.take(0) =~= Seq::<Seq<char>>::empty());
    while i < lines.len()
        invariant
            from <= i <= lines@.len(),
            all == char_views(lines@).skip(from as int),
            out@ == joined(all.take(i - from), seq!['\n']),
        decreases lines.len() - i,
    {
        let ghost before = out@;
        assert(all.take(i - from + 1).drop_last() =~= all.take(i - from));
        assert(all.take(i - from + 1).last() == lines@[i as int]@);
        if i > from {
            out.push('\n');
        }
        let mut k: usize = 0;
        let ghost mid = out@;
        while k < lines[i].len()
            invariant
                i < lines@.len(),
                k <= lines@[i as int]@.len(),
                out@ == mid + lines@[i as int]@.take(k as int),
            decreases lines@[i as int]@.len() - k,
        {
            out.push(lines[i][k]);
            assert(out@ =~= mid + lines@[i as int]@.take(k + 1));
            k = k + 1;
        }
        assert(lines@[i as int]@.take(k as int) =~= lines@[i as int]@);
        assert(out@ =~= joined(all.take(i - from + 1), seq!['\n']));
        i = i + 1;
    }
    assert(all.take(i - from) =~= all);
    out
}

fn cue_of_lines_vec(k: &Vec<Vec<char>>) -> (r: Option<SubtitleCue>)
    ensures
        match cue_of_lines(char_views(k@)) {
            Some(c) => r matches Some(x) && cue_view(x) == c,
            None => r is None,
        },
{
    let ghost kv = char_views(k@);
    if k.len() == 0 {
        return None;
    }
    let arrow = chars_of("-->");
    assert(kv[0] == k@[0]@);
    let first_is_timing = contains_vec(k[0].as_slice(), arrow.as_slice());
    if !first_is_timing && k.len() < 2 {
        return None;
    }
    let index: usize = if first_is_timing {
        0
    } else {
        1
    };
    assert(kv[index as int] == k@[index as int]@);
    let (start, end) = match time_range_vec(k[index].as_slice()) {
        Some(range) => range,
        None => {
            return None;
        },
    };
    let text = join_lines(k, index + 1);
    if text.len() == 0 {
        return None;
    }
    let cue = SubtitleCue { start: strings_of(&start), end: strings_of(&end), text: string_of(text.as_slice()) };
    Some(cue)
}

fn ass_line_cue_vec(line: &[char]) -> (r: Option<SubtitleCue>)
    ensures
        match ass_line_cue(line@) {
            Some(c) => r matches Some(x) && cue_view(x) == c,
            None => r is None,
        },
{
    let t = trim_vec(line);
    let prefix = chars_of("Dialogue:");
    proof {
        reveal_strlit("Dialogue:");
    }
    if !matches_at(t.as_slice(), 0, prefix.as_slice()) {
        assert(t@.skip(0) =~= t@);
        return None;
    }
    assert(t@.skip(0) =~= t@);
    let body_raw = slice_vec(t.as_slice(), 9, t.len());
    assert(body_raw@ =~= t@.skip(9));
    let body = trim_vec(body_raw.as_slice());
    let fields = splitn_vec(body.as_slice(), 10, ',');
    if fields.len() < 10 {
        return None;
    }
    assert(char_views(fields@)[1] == fields@[1]@);
    assert(char_views(fields@)[2] == fields@[2]@);
    assert(char_views(fields@)[9] == fields@[9]@);
    let f1 = trim_vec(fields[1].as_slice());
    let start = match timestamp_vec(f1.as_slice()) {
        Some(p) => p,
        None => {
            return None;
        },
    };
    let f2 = trim_vec(fields[2].as_slice());
    let end = match timestamp_vec(f2.as_slice()) {
        Some(p) => p,
        None => {
            return None;
        },
    };
    let a = replace_vec(fields[9].as_slice(), chars_of("\\N").as_slice(), chars_of("\n").as_slice());
    let b = replace_vec(a.as_slice(), chars_of("\\n").as_slice(), chars_of("\n").as_slice());
    let c = replace_vec(b.as_slice(), chars_of("{\\i1}").as_slice(), chars_of("").as_slice());
    let d = replace_vec(c.as_slice(), chars_of("{\\i0}").as_slice(), chars_of("").as_slice());
    let cue = SubtitleCue { start: strings_of(&start), end: strings_of(&end), text: string_of(d.as_slice()) };
    Some(cue)
}

fn any_dialogue_line(lines: &Vec<Vec<char>>) -> (r: bool)
    ensures
        r == exists|i: int| 0 <= i < lines@.len() && is_dialogue_line(#[trigger] char_views(lines@)[i]),
{
    let ghost lv = char_views(lines@);
    let prefix = chars_of("Dialogue:");
    let mut i: usize = 0;
    while i < lines.len()
        invariant
            i <= lines@.len(),
            lv == char_views(lines@),
            prefix@ == "Dialogue:"@,
            forall|j: int| 0 <= j < i ==> !is_dialogue_line(#[trigger] lv[j]),
        decreases lines.len() - i,
    {
        proof {
            reveal_strlit("Dialogue:");
        }
        assert(lv[i as int] == lines@[i as int]@);
        let start = trim_start_from(lines[i].as_slice());
        let rest = slice_vec(lines[i].as_slice(), start, lines[i].len());
        assert(rest@ =~= trim_start_seq(lv[i as int]));
        assert(rest@.skip(0) =~= rest@);
        if matches_at(rest.as_slice(), 0, prefix.as_slice()) {
            assert(is_dialogue_line(lv[i as int]));
            return true;
        }
        i = i + 1;
    }
    false
}

/// The cues of a subtitle text, in order: an ASS script's dialogue lines,
/// or the blocks of a SubRip or WebVTT file.
pub fn parse_subtitles(input: &str) -> (r: Vec<SubtitleCue>)
    ensures
        r@.map_values(|c: SubtitleCue| cue_view(c)) == subtitle_cues(input@),
{
    let chars = chars_of(input);
    let lines = lines_vec(chars.as_slice());
    let ghost lv = char_views(lines@);
    let dialogue = any_dialogue_line(&lines);
    let mut out: Vec<SubtitleCue> = Vec::new();
    if dialogue {
        assert(has_dialogue(input@));
        let mut k: usize = 0;
        assert(lv.skip(0) =~= lv);
        while k < lines.len()
            invariant
                k <= lines@.len(),
                lv == char_views(lines@),
                out@.map_values(|c: SubtitleCue| cue_view(c)) + ass_cues(lv.skip(k as int)) == ass_cues(lv),
            decreases lines.len() - k,
        {
            let ghost before = out@.map_values(|c: SubtitleCue| cue_view(c));
            assert(lv.skip(k as int)[0] == lines@[k as int]@);
            assert(lv.skip(k as int).skip(1) =~= lv.skip(k + 1));
            match ass_line_cue_vec(lines[k].as_slice()) {
                Some(cue) => {
                    let ghost cv = cue_view(cue);
                    out.push(cue);
                    assert(out@.map_values(|c: SubtitleCue| cue_view(c)) =~= before.push(cv));
                    assert(before.push(cv) + ass_cues(lv.skip(k + 1)) =~= before + ass_cues(lv.skip(k as int)));
                },
                None => {
                },
            }
            k = k + 1;
        }
        assert(lv.skip(k as int) =~= Seq::<Seq<char>>::empty());
        assert(out@.map_values(|c: SubtitleCue| cue_view(c)) =~= out@.map_values(|c: SubtitleCue| cue_view(c)) + ass_cues(lv.skip(k as int)));
        return out;
    }
    assert(!has_dialogue(input@));
    let crlf = chars_of("\r\n");
    let lf = chars_of("\n");
    let blank = chars_of("\n\n");
    proof {
        reveal_strlit("\n\n");
    }
    let normalized = replace_vec(chars.as_slice(), crlf.as_slice(), lf.as_slice());
    let blocks = split_vec(normalized.as_slice(), blank.as_slice());
    let ghost bv = char_views(blocks@);
    let mut k: usize = 0;
    assert(bv.skip(0) =~= bv);
    while k < blocks.len()
        invariant
            k <= blocks@.len(),
            bv == char_views(blocks@),
            out@.map_values(|c: SubtitleCue| cue_view(c)) + block_cues(bv.skip(k as int)) == block_cues(bv),
        decreases blocks.len() - k,
    {
        let ghost before = out@.map_values(|c: SubtitleCue| cue_view(c));
        assert(bv.skip(k as int)[0] == blocks@[k as int]@);
        assert(bv.skip(k as int).skip(1) =~= bv.skip(k + 1));
        let block_lines = lines_vec(blocks[k].as_slice());
        let kept = kept_lines_vec(&block_lines);
        match cue_of_lines_vec(&kept) {
            Some(cue) => {
                let ghost cv = cue_view(cue);
                out.push(cue);
                assert(out@.map_values(|c: SubtitleCue| cue_view(c)) =~= before.push(cv));
                assert(before.push(cv) + block_cues(bv.skip(k + 1)) =~= before + block_cues(bv.skip(k as int)));
            },
            None => {
            },
        }
        k = k + 1;
    }
    assert(bv.skip(k as int) =~= Seq::<Seq<char>>::empty());
    assert(out@.map_values(|c: SubtitleCue| cue_view(c)) =~= out@.map_values(|c: SubtitleCue| cue_view(c)) + block_cues(bv.skip(k as int)));
    out
}

} // verus!
