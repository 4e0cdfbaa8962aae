//! Character-level helpers shared by the formatting and validation code.

use vstd::prelude::*;
use vstd::string::*;

verus! {

/// Unicode `White_Space` code points, as `char::is_whitespace` classifies them.
pub open spec fn is_whitespace_char(c: char) -> bool {
    let n = c as u32;
    ||| 0x09 <= n <= 0x0d
    ||| n == 0x20
    ||| n == 0x85
    ||| n == 0xa0
    ||| n == 0x1680
    ||| 0x2000 <= n <= 0x200a
    ||| n == 0x2028
    ||| n == 0x2029
    ||| n == 0x202f
    ||| n == 0x205f
    ||| n == 0x3000
}

/// Unicode general category `Cc`, as `char::is_control` classifies it.
pub open spec fn is_control_char(c: char) -> bool {
    let n = c as u32;
    n <= 0x1f || (0x7f <= n <= 0x9f)
}

/// A text is blank when trimming its white space leaves nothing.
pub open spec fn is_blank(s: Seq<char>) -> bool {
    forall|i: int| 0 <= i < s.len() ==> #[trigger] is_whitespace_char(s[i])
}

/// `needle` occurs in `s` at position `at`.
pub open spec fn occurs_at(s: Seq<char>, needle: Seq<char>, at: int) -> bool {
    0 <= at && at + needle.len() <= s.len() && s.subrange(at, at + needle.len()) =~= needle
}

/// `needle` occurs somewhere in `s`.
pub open spec fn contains_seq(s: Seq<char>, needle: Seq<char>) -> bool {
    exists|at: int| occurs_at(s, needle, at)
}

/// Lowercase hexadecimal digit of a value below 16.
pub open spec fn hex_digit(d: nat) -> char {
    if d < 10 {
        ((d + 48) as u8) as char
    } else {
        ((d + 87) as u8) as char
    }
}

/// Decimal digits of a natural number, most significant first, without leading zeros.
pub open spec fn decimal(n: nat) -> Seq<char>
    decreases n,
{
    if n < 10 {
        seq![((n + 48) as u8) as char]
    } else {
        decimal(n / 10).push((((n % 10) + 48) as u8) as char)
    }
}

/// Appends one character.
#[verifier::external_body]
pub(crate) fn push_char(s: &mut String, c: char)
    ensures
        final(s)@ == old(s)@.push(c),
{
    s.push(c);
}

/// Reports whether `char::is_whitespace` holds of `c`.
pub fn char_is_whitespace(c: char) -> (r: bool)
    ensures
        r == is_whitespace_char(c),
{
    let n = c as u32;
    (0x09 <= n && n <= 0x0d) || n == 0x20 || n == 0x85 || n == 0xa0 || n == 0x1680 || (0x2000
        <= n && n <= 0x200a) || n == 0x2028 || n == 0x2029 || n == 0x202f || n == 0x205f || n
        == 0x3000
}

/// Whether `s.trim().is_empty()`.
pub fn is_blank_str(s: &str) -> (r: bool)
    ensures
        r == is_blank(s@),
{
    let len = s.unicode_len();
    let mut i: usize = 0;
    while i < len
        invariant
            len == s@.len(),
            i <= len,
            forall|j: int| 0 <= j < i ==> #[trigger] is_whitespace_char(s@[j]),
        decreases len - i,
    {
        if !char_is_whitespace(s.get_char(i)) {
            return false;
        }
        i = i + 1;
    }
    true
}

/// Whether `needle` occurs at char position `at` of `s`.
pub fn occurs_at_exec(s: &str, s_len: usize, needle: &str, n_len: usize, at: usize) -> (r: bool)
    requires
        s_len == s@.len(),
        n_len == needle@.len(),
    ensures
        r == occurs_at(s@, needle@, at as int),
{
    if at > s_len || n_len > s_len - at {
        return false;
    }
    let mut k: usize = 0;
    while k < n_len
        invariant
            s_len == s@.len(),
            n_len == needle@.len(),
            at + n_len <= s_len,
            k <= n_len,
            forall|j: int| 0 <= j < k ==> s@[at + j] == needle@[j],
        decreases n_len - k,
    {
        if s.get_char(at + k) != needle.get_char(k) {
            assert(s@.subrange(at as int, at + n_len)[k as int] != needle@[k as int]);
            return false;
        }
        k = k + 1;
    }
    assert(s@.subrange(at as int, at + n_len) =~= needle@);
    true
}

/// Whether `s.contains(needle)`.
pub fn contains_str(s: &str, needle: &str) -> (r: bool)
    ensures
        r == contains_seq(s@, needle@),
{
    let s_len = s.unicode_len();
    let n_len = needle.unicode_len();
    let mut at: usize = 0;
    loop
        invariant
            s_len == s@.len(),
            n_len == needle@.len(),
            at <= s_len,
            forall|j: int| 0 <= j < at ==> !occurs_at(s@, needle@, j),
        decreases s_len - at,
    {
        if occurs_at_exec(s, s_len, needle, n_len, at) {
            return true;
        }
        if at == s_len {
            return false;
        }
        at = at + 1;
    }
}

/// Lowercase hexadecimal digit.
pub fn hex_digit_exec(d: u32) -> (c: char)
    requires
        d < 16,
    ensures
        c == hex_digit(d as nat),
{
    if d < 10 {
        ((d + 48) as u8) as char
    } else {
        ((d + 87) as u8) as char
    }
}

proof fn lemma_decimal_len(n: nat)
    ensures
        decimal(n).len() >= 1,
    decreases n,
{
    if n >= 10 {
        lemma_decimal_len(n / 10);
    }
}

/// Decimal text of an unsigned integer, as `Display` writes it.
pub fn decimal_string(n: u128) -> (s: String)
    ensures
        s@ == decimal(n as nat),
{
    let mut digits: Vec<char> = Vec::new();
    let mut rest = n;
    // digits holds the low-order digits, least significant first
    while rest >= 10
        invariant
            decimal(n as nat) == decimal(rest as nat) + digits@.reverse(),
        decreases rest,
    {
        let d = ((rest % 10) as u8 + 48) as char;
        proof {
            assert(decimal(rest as nat) == decimal((rest / 10) as nat).push(d));
            assert(digits@.push(d).reverse() =~= seq![d] + digits@.reverse());
            assert(decimal(rest as nat) + digits@.reverse() =~= decimal((rest / 10) as nat) + digits@.push(d).reverse());
        }
        digits.push(d);
        rest = rest / 10;
    }
    let mut s = String::new();
    push_char(&mut s, ((rest as u8) + 48) as char);
    assert(s@ =~= decimal(rest as nat));
    let mut i = digits.len();
    while i > 0
        invariant
            i <= digits.len(),
            decimal(n as nat) == decimal(rest as nat) + digits@.reverse(),
            s@ =~= decimal(rest as nat) + digits@.subrange(i as int, digits.len() as int).reverse(),
        decreases i,
    {
        i = i - 1;
        let c = digits[i];
        proof {
            assert(digits@.subrange(i as int, digits.len() as int) =~= seq![c] + digits@.subrange(i + 1, digits.len() as int));
            assert((seq![c] + digits@.subrange(i + 1, digits.len() as int)).reverse() =~= digits@.subrange(i + 1, digits.len() as int).reverse().push(c));
        }
        push_char(&mut s, c);
    }
    assert(digits@.subrange(0, digits.len() as int) =~= digits@);
    s
}

} // verus!

verus! {

/// `width` lowercase hexadecimal digits of `n`, zero padded (`{:0width$x}` for
/// values that fit).
pub open spec fn hex_fixed(n: nat, width: nat) -> Seq<char>
    decreases width,
{
    if width == 0 {
        Seq::empty()
    } else {
        hex_fixed(n / 16, (width - 1) as nat).push(hex_digit(n % 16))
    }
}

/// The text after the last `/` (all of it when there is none), as
/// `rsplit('/').next()` yields it.
pub open spec fn last_segment(s: Seq<char>) -> Seq<char>
    decreases s.len(),
{
    if s.len() == 0 {
        s
    } else if s.last() == '/' {
        Seq::empty()
    } else {
        last_segment(s.drop_last()).push(s.last())
    }
}

/// `s` without a trailing `suffix`, when it has one.
pub open spec fn without_suffix(s: Seq<char>, suffix: Seq<char>) -> Option<Seq<char>> {
    if suffix.len() <= s.len() && s.subrange(s.len() - suffix.len(), s.len() as int) =~= suffix {
        Some(s.take(s.len() - suffix.len()))
    } else {
        None
    }
}

/// `{:016x}` of a 64-bit value.
pub fn hex16(n: u64) -> (s: String)
    ensures
        s@ == hex_fixed(n as nat, 16),
{
    let mut digits: Vec<char> = Vec::new();
    let mut rest = n;
    let mut k: usize = 0;
    while k < 16
        invariant
            k <= 16,
            digits@.len() == k,
            hex_fixed(n as nat, 16) == hex_fixed(rest as nat, (16 - k) as nat) + digits@.reverse(),
        decreases 16 - k,
    {
        let d = hex_digit_exec((rest % 16) as u32);
        proof {
            assert(hex_fixed(rest as nat, (16 - k) as nat) == hex_fixed((rest / 16) as nat, (16 - k - 1) as nat).push(d));
            assert(digits@.push(d).reverse() =~= seq![d] + digits@.reverse());
            assert(hex_fixed(rest as nat, (16 - k) as nat) + digits@.reverse() =~= hex_fixed((rest / 16) as nat, (16 - k - 1) as nat) + digits@.push(d).reverse());
        }
        digits.push(d);
        rest = rest / 16;
        k = k + 1;
    }
    assert(hex_fixed(rest as nat, 0) =~= Seq::<char>::empty());
    let mut s = String::new();
    let mut i = digits.len();
    while i > 0
        invariant
            i <= digits.len(),
            hex_fixed(n as nat, 16) == digits@.reverse(),
            s@ =~= digits@.subrange(i as int, digits.len() as int).reverse(),
        decreases i,
    {
        i = i - 1;
        let c = digits[i];
        proof {
            assert(digits@.subrange(i as int, digits.len() as int) =~= seq![c] + digits@.subrange(i + 1, digits.len() as int));
            assert((seq![c] + digits@.subrange(i + 1, digits.len() as int)).reverse() =~= digits@.subrange(i + 1, digits.len() as int).reverse().push(c));
        }
        push_char(&mut s, c);
    }
    assert(digits@.subrange(0, digits.len() as int) =~= digits@);
    s
}

proof fn lemma_last_segment_skip(s: Seq<char>, cut: int)
    requires
        -1 <= cut < s.len(),
        cut >= 0 ==> s[cut] == '/',
        forall|j: int| cut < j < s.len() ==> s[j] != '/',
    ensures
        last_segment(s) =~= s.subrange(cut + 1, s.len() as int),
    decreases s.len(),
{
    if s.len() == 0 {
    } else if s.last() == '/' {
    } else {
        lemma_last_segment_skip(s.drop_last(), cut);
    }
}

/// The text after the last `/` of `s`.
pub fn last_segment_str(s: &str) -> (r: String)
    ensures
        r@ == last_segment(s@),
{
    let len = s.unicode_len();
    let mut i = len;
    while i > 0 && s.get_char(i - 1) != '/'
        invariant
            len == s@.len(),
            i <= len,
            forall|j: int| i <= j < len ==> s@[j] != '/',
        decreases i,
    {
        i = i - 1;
    }
    proof {
        lemma_last_segment_skip(s@, i - 1);
    }
    s.substring_char(i, len).to_owned()
}

/// `s.strip_suffix(suffix)`.
pub fn strip_suffix_str(s: &str, suffix: &str) -> (r: Option<String>)
    ensures
        r matches Some(t) ==> without_suffix(s@, suffix@) == Some(t@),
        r is None ==> without_suffix(s@, suffix@) is None,
{
    let len = s.unicode_len();
    let n = suffix.unicode_len();
    if n > len {
        return None;
    }
    if occurs_at_exec(s, len, suffix, n, len - n) {
        Some(s.substring_char(0, len - n).to_owned())
    } else {
        None
    }
}

/// `s` with each occurrence of `pat` replaced by `rep`, scanning from the
/// left and resuming after each replaced occurrence; for a nonempty `pat`
/// this is what `str::replace` does.
pub open spec fn replace_all(s: Seq<char>, pat: Seq<char>, rep: Seq<char>) -> Seq<char>
    decreases s.len(),
{
    if s.len() == 0 {
        Seq::empty()
    } else if pat.len() > 0 && s.len() >= pat.len() && s.take(pat.len() as int) == pat {
        rep + replace_all(s.skip(pat.len() as int), pat, rep)
    } else {
        seq![s[0]] + replace_all(s.skip(1), pat, rep)
    }
}

/// `s.replace(pat, rep)` for a nonempty `pat`.
pub fn replace_str(s: &str, pat: &str, rep: &str) -> (r: String)
    ensures
        r@ == replace_all(s@, pat@, rep@),
{
    let n = s.unicode_len();
    let m = pat.unicode_len();
    let mut out = String::new();
    let mut i: usize = 0;
    assert(s@.skip(0) =~= s@);
    while i < n
        invariant
            n == s@.len(),
            m == pat@.len(),
            i <= n,
            out@ + replace_all(s@.skip(i as int), pat@, rep@) == replace_all(s@, pat@, rep@),
        decreases n - i,
    {
        let ghost rest = s@.skip(i as int);
        let ghost before = out@;
        if m > 0 && m <= n - i {
            assert(rest.take(m as int) =~= s@.subrange(i as int, i + m));
        }
        if m > 0 && m <= n - i && occurs_at_exec(s, n, pat, m, i) {
            assert(rest.skip(m as int) =~= s@.skip(i + m));
            out.append(rep);
            assert(out@ + replace_all(s@.skip(i + m), pat@, rep@) =~= before + replace_all(rest, pat@, rep@));
            i = i + m;
        } else {
            let c = s.get_char(i);
            assert(rest.skip(1) =~= s@.skip(i + 1));
            push_char(&mut out, c);
            assert(out@ + replace_all(s@.skip(i + 1), pat@, rep@) =~= before + replace_all(rest, pat@, rep@));
            i = i + 1;
        }
    }
    assert(out@ + replace_all(s@.skip(n as int), pat@, rep@) =~= out@);
    out
}

} // verus!
