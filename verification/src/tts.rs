//! The text-to-speech engines' addresses and the requests sent to them.

use crate::project::TtsProviderKind;
use vstd::prelude::*;
use vstd::string::*;

verus! {

/// The environment variable that overrides an engine's address.
pub open spec fn endpoint_variable_text(provider: TtsProviderKind) -> Seq<char> {
    match provider {
        TtsProviderKind::Voicevox => "MM_VOICEVOX_ENDPOINT"@,
        TtsProviderKind::AivisSpeech => "MM_AIVIS_ENDPOINT"@,
        TtsProviderKind::CoeiroInk => "MM_COEIROINK_ENDPOINT"@,
    }
}

/// The address an engine listens on by default.
pub open spec fn default_endpoint_text(provider: TtsProviderKind) -> Seq<char> {
    match provider {
        TtsProviderKind::Voicevox => "http://127.0.0.1:50021"@,
        TtsProviderKind::AivisSpeech => "http://127.0.0.1:10101"@,
        TtsProviderKind::CoeiroInk => "http://127.0.0.1:50032"@,
    }
}

/// The environment variable that overrides an engine's address.
pub fn endpoint_variable(provider: TtsProviderKind) -> (r: &'static str)
    ensures
        r@ == endpoint_variable_text(provider),
{
    match provider {
        TtsProviderKind::Voicevox => "MM_VOICEVOX_ENDPOINT",
        TtsProviderKind::AivisSpeech => "MM_AIVIS_ENDPOINT",
        TtsProviderKind::CoeiroInk => "MM_COEIROINK_ENDPOINT",
    }
}

/// The address of an engine: the value of its environment variable
/// (`configured`) when set, else its default address.
pub fn provider_endpoint(provider: TtsProviderKind, configured: Option<&str>) -> (r: String)
    ensures
        match configured {
            Some(v) => r@ == v@,
            None => r@ == default_endpoint_text(provider),
        },
{
    match configured {
        Some(v) => v.to_owned(),
        None => String::from_str(
            match provider {
                TtsProviderKind::Voicevox => "http://127.0.0.1:50021",
                TtsProviderKind::AivisSpeech => "http://127.0.0.1:10101",
                TtsProviderKind::CoeiroInk => "http://127.0.0.1:50032",
            },
        ),
    }
}

/// `s` without its trailing `/` characters.
pub open spec fn without_trailing_slashes(s: Seq<char>) -> Seq<char>
    decreases s.len(),
{
    if s.len() > 0 && s.last() == '/' {
        without_trailing_slashes(s.drop_last())
    } else {
        s
    }
}

/// `s.trim_end_matches('/')`.
pub fn trim_trailing_slashes(s: &str) -> (r: String)
    ensures
        r@ == without_trailing_slashes(s@),
{
    let mut end = s.unicode_len();
    assert(s@.take(end as int) =~= s@);
    while end > 0 && s.get_char(end - 1) == '/'
        invariant
            end <= s@.len(),
            without_trailing_slashes(s@) == without_trailing_slashes(s@.take(end as int)),
        decreases end,
    {
        assert(s@.take(end as int).drop_last() =~= s@.take(end - 1));
        end = end - 1;
    }
    assert(s@.subrange(0, end as int) =~= s@.take(end as int));
    s.substring_char(0, end).to_owned()
}

/// The two requests of a VOICEVOX-style engine at `endpoint`: the audio
/// query, then the synthesis.
pub fn voicevox_urls(endpoint: &str) -> (r: (String, String))
    ensures
        r.0@ == without_trailing_slashes(endpoint@) + "/audio_query"@,
        r.1@ == without_trailing_slashes(endpoint@) + "/synthesis"@,
{
    let base = trim_trailing_slashes(endpoint);
    let mut query = base.clone();
    query.append("/audio_query");
    let mut synthesis = base;
    synthesis.append("/synthesis");
    (query, synthesis)
}

/// The synthesis request of a COEIROINK engine at `endpoint`.
pub fn coeiroink_url(endpoint: &str) -> (r: String)
    ensures
        r@ == without_trailing_slashes(endpoint@) + "/v1/synthesis"@,
{
    let mut url = trim_trailing_slashes(endpoint);
    url.append("/v1/synthesis");
    url
}

/// The character is an ASCII decimal digit.
pub open spec fn is_digit(c: char) -> bool {
    '0' <= c <= '9'
}

/// The value of a sequence of decimal digits.
pub open spec fn digits_value(d: Seq<char>) -> nat
    decreases d.len(),
{
    if d.len() == 0 {
        0
    } else {
        10 * digits_value(d.drop_last()) + ((d.last() as u32) - 48) as nat
    }
}

/// The text after an optional leading `+`.
pub open spec fn unsigned_digits(s: Seq<char>) -> Seq<char> {
    if s.len() > 0 && s[0] == '+' {
        s.skip(1)
    } else {
        s
    }
}

/// Every character is a decimal digit.
pub open spec fn all_digits(d: Seq<char>) -> bool {
    forall|i: int| 0 <= i < d.len() ==> #[trigger] is_digit(d[i])
}

/// What `u32::from_str` gives: an optional `+`, then at least one digit,
/// of a value that fits.
pub open spec fn parsed_u32(s: Seq<char>) -> Option<u32> {
    let d = unsigned_digits(s);
    if d.len() > 0 && all_digits(d) && digits_value(d) <= u32::MAX {
        Some(digits_value(d) as u32)
    } else {
        None
    }
}

proof fn lemma_digits_value_grows(d: Seq<char>, k: int)
    requires
        0 <= k <= d.len(),
        forall|i: int| 0 <= i < d.len() ==> #[trigger] is_digit(d[i]),
    ensures
        digits_value(d.take(k)) <= digits_value(d),
    decreases d.len() - k,
{
    if k < d.len() {
        lemma_digits_value_grows(d, k + 1);
        assert(d.take(k + 1).drop_last() =~= d.take(k));
    } else {
        assert(d.take(k) =~= d);
    }
}

/// The speaker number of a synthesis request: the speaker text read as a
/// `u32`, or 1 when it is not one.
pub fn speaker_id(speaker: &str) -> (r: u32)
    ensures
        r == match parsed_u32(speaker@) {
            Some(v) => v,
            None => 1,
        },
{
    let n = speaker.unicode_len();
    let start: usize = if n > 0 && speaker.get_char(0) == '+' {
        1
    } else {
        0
    };
    let ghost d = speaker@.skip(start as int);
    assert(d =~= unsigned_digits(speaker@));
    if start >= n {
        return 1;
    }
    let mut value: u64 = 0;
    let mut i: usize = start;
    while i < n
        invariant
            n == speaker@.len(),
            start <= i <= n,
            d == speaker@.skip(start as int),
            d == unsigned_digits(speaker@),
            forall|j: int| 0 <= j < i - start ==> #[trigger] is_digit(d[j]),
            value == digits_value(d.take(i - start)),
            value <= u32::MAX,
        decreases n - i,
    {
        let c = speaker.get_char(i);
        assert(d[i - start] == c);
        if c < '0' || c > '9' {
            assert(!is_digit(d[i - start]));
            assert(!all_digits(d));
            assert(parsed_u32(speaker@) is None);
            return 1;
        }
        assert(d.take(i - start + 1).drop_last() =~= d.take(i - start));
        assert(d.take(i - start + 1).last() == c);
        let next: u64 = 10 * value + ((c as u32) - 48) as u64;
        if next > 0xffff_ffff {
            proof {
                assert(digits_value(d.take(i - start + 1)) == next);
                if all_digits(d) {
                    lemma_digits_value_grows(d, i - start + 1);
                    assert(digits_value(d) > u32::MAX);
                }
                assert(parsed_u32(speaker@) is None);
            }
            return 1;
        }
        value = next;
        i = i + 1;
    }
    assert(d.take(i - start) =~= d);
    assert(d.len() > 0);
    value as u32
}

} // verus!
