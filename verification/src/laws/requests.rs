//! Laws of what the hub makes of the texts that it is handed.

use crate::config;
use crate::http;
use crate::text;
use vstd::prelude::*;

verus! {

/// A setting never leaves its range, and a setting that is missing or no number counts as its
/// default.
pub proof fn law_setting_in_range(value: Option<Seq<char>>, min: u64, max: u64, default: u64)
    requires
        min <= default <= max,
    ensures
        min <= config::clamped(config::setting(value, default), min, max) <= max,
        value is None ==> config::clamped(config::setting(value, default), min, max) == default,
        value is Some && text::parsed(value->0, u64::MAX as nat) is None ==> config::clamped(
            config::setting(value, default),
            min,
            max,
        ) == default,
{
}

proof fn lemma_trimmed_within(s: Seq<char>, good: spec_fn(char) -> bool)
    requires
        forall|i: int| 0 <= i < s.len() ==> good(#[trigger] s[i]),
    ensures
        forall|i: int| 0 <= i < text::trimmed(s).len() ==> good(#[trigger] text::trimmed(s)[i]),
    decreases s.len(),
{
    if s.len() > 0 {
        if text::is_white(s[0]) {
            let rest = s.drop_first();
            assert forall|i: int| 0 <= i < rest.len() implies good(#[trigger] rest[i]) by {
                assert(good(s[i + 1]));
            }
            lemma_trimmed_within(rest, good);
            assert(text::trimmed(s) == text::trimmed(rest));
        } else if text::is_white(s.last()) {
            let rest = s.drop_last();
            lemma_trimmed_within(rest, good);
            assert(text::trimmed(s) == text::trimmed(rest));
        } else {
            assert(text::trimmed(s) == s);
        }
    } else {
        assert(text::trimmed(s) == s);
    }
}

/// A file name that stands in a header has between one and 255 characters, none of which is a
/// control character, a quote or a backslash.
pub proof fn law_safe_filename(name: Seq<char>)
    ensures
        0 < http::safe_filename(name).len() <= 255,
        forall|i: int|
            0 <= i < http::safe_filename(name).len() ==> http::in_filename(
                #[trigger] http::safe_filename(name)[i],
            ),
{
    broadcast use vstd::seq_lib::group_filter_ensures;

    reveal_strlit("file");
    let good = |c: char| http::in_filename(c);
    let kept = name.filter(good);
    assert forall|i: int| 0 <= i < kept.len() implies good(#[trigger] kept[i]) by {}
    lemma_trimmed_within(kept, good);
    let clean = text::trimmed(kept);
    let safe = http::safe_filename(name);
    assert forall|i: int| 0 <= i < safe.len() implies http::in_filename(#[trigger] safe[i]) by {
        if clean.len() > 0 {
            assert(good(clean[i]));
        }
    }
}

} // verus!
