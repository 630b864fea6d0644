//! Numerals, trimming, dates and stored times.

use simple_im::calendar::{epoch_secs_to_iso8601, instant_to_iso8601, is_leap_year};
use simple_im::clock::{secs, Clock, Moment, SystemClock, LAST_INSTANT};
use simple_im::persistence::{
    cap, expiry_to_secs_str, secs_str_to_u64, system_time_to_secs_str,
};
use simple_im::text::{
    after_last_text, before_first_text, chars_of, decimal_text, hex_bytes_text, hex_text, join2,
    join3, padded_decimal, parse_decimal, strip_prefix, trim_text,
};
use simple_im::types::{Payload, MAX_EXPIRY};

const SECOND: i128 = 1_000_000_000;

#[test]
fn numbers_read_back_from_their_numerals() {
    for n in [0, 1, 9, 10, 99, 100, 12_345, u64::MAX - 1, u64::MAX] {
        let s = decimal_text(n);
        assert_eq!(s, n.to_string());
        assert_eq!(parse_decimal(&s, u64::MAX), Some(n));
    }
}

#[test]
fn numerals_are_padded() {
    assert_eq!(padded_decimal(7, 2), "07");
    assert_eq!(padded_decimal(42, 2), "42");
    assert_eq!(padded_decimal(1234, 2), "1234");
    assert_eq!(padded_decimal(0, 4), "0000");
}

#[test]
fn hexadecimal_is_lower_case() {
    assert_eq!(hex_text(0xbeef, 16), "000000000000beef");
    assert_eq!(hex_text(u64::MAX, 16), "ffffffffffffffff");
    assert_eq!(hex_bytes_text(&vec![0, 15, 16, 171, 255]), "000f10abff");
    assert_eq!(hex_bytes_text(&Vec::new()), "");
}

/// A numeral is read as the standard library reads it.
#[test]
fn numerals_are_read_as_usual() {
    for s in [
        "", "+", "-", "0", "00", "007", "+5", "-5", " 5", "5 ", "5a", "٣", "++5", "1_000",
        "18446744073709551615", "18446744073709551616", "99999999999999999999", "+0",
    ] {
        assert_eq!(parse_decimal(s, u64::MAX), s.parse::<u64>().ok(), "{s:?}");
        assert_eq!(parse_decimal(s, 65535), s.parse::<u16>().ok().map(u64::from), "{s:?}");
    }
    assert_eq!(parse_decimal("65535", 65535), Some(65535));
    assert_eq!(parse_decimal("65536", 65535), None);
}

/// White space is what the standard library takes it to be, for every character.
#[test]
fn white_space_is_as_usual() {
    for u in 0..=0x10_ffff_u32 {
        if let Some(c) = char::from_u32(u) {
            let s = String::from(c);
            assert_eq!(trim_text(&s).is_empty(), c.is_whitespace(), "{u:x}");
        }
    }
    for s in ["", "  ", " a b ", "\t\nx\u{a0}", "\u{3000}é\u{2003}"] {
        assert_eq!(trim_text(s), s.trim());
    }
}

#[test]
fn texts_are_cut_and_joined() {
    assert_eq!(join2("a", "b"), "ab");
    assert_eq!(join3("a", "", "c"), "ac");
    assert_eq!(chars_of("é€x"), ['é', '€', 'x']);
    assert_eq!(before_first_text("a,b,c", ','), "a");
    assert_eq!(before_first_text("abc", ','), "abc");
    assert_eq!(before_first_text(",b", ','), "");
    assert_eq!(after_last_text("gov-1-12", '-'), "12");
    assert_eq!(after_last_text("gov", '-'), "gov");
    assert_eq!(strip_prefix("Bearer x", "Bearer ").as_deref(), Some("x"));
    assert_eq!(strip_prefix("bearer x", "Bearer "), None);
    assert_eq!(strip_prefix("Bear", "Bearer "), None);
}

#[test]
fn payload_of_text_is_its_utf8() {
    assert_eq!(Payload::of_text("é€").0, "é€".as_bytes());
    assert_eq!(Payload(vec![1, 2]).copy().0, [1, 2]);
}

#[test]
fn leap_years() {
    for (year, leap) in [(1970, false), (1972, true), (1900, false), (2000, true), (2100, false)] {
        assert_eq!(is_leap_year(year), leap);
    }
}

#[test]
fn dates_of_the_calendar() {
    for (t, s) in [
        (0, "1970-01-01T00:00:00Z"),
        (86_399, "1970-01-01T23:59:59Z"),
        (86_400, "1970-01-02T00:00:00Z"),
        (951_782_400, "2000-02-29T00:00:00Z"),
        (951_868_800, "2000-03-01T00:00:00Z"),
        (1_000_000_000, "2001-09-09T01:46:40Z"),
        (1_234_567_890, "2009-02-13T23:31:30Z"),
        (1_709_164_800, "2024-02-29T00:00:00Z"),
        (1_735_689_599, "2024-12-31T23:59:59Z"),
        (4_102_444_800, "2100-01-01T00:00:00Z"),
        (4_107_542_400, "2100-03-01T00:00:00Z"),
    ] {
        assert_eq!(epoch_secs_to_iso8601(t), s);
    }
}

#[test]
fn instants_are_dated_by_both_clocks() {
    let now = Moment { instant: secs(100), system: 1_000_000_000 * SECOND };
    assert_eq!(instant_to_iso8601(secs(100), now), "2001-09-09T01:46:40Z");
    assert_eq!(instant_to_iso8601(secs(160), now), "2001-09-09T01:47:40Z");
    assert_eq!(instant_to_iso8601(secs(60), now), "2001-09-09T01:46:00Z");
    let early = Moment { instant: secs(100), system: 10 * SECOND };
    assert_eq!(instant_to_iso8601(0, early), "1970-01-01T00:00:00Z");
}

#[test]
fn stored_times_read_back() {
    assert_eq!(system_time_to_secs_str(1_750_000_000 * SECOND + 999_999_999), "1750000000");
    assert_eq!(system_time_to_secs_str(-1), "0");
    assert_eq!(secs_str_to_u64("1750000000"), Some(1_750_000_000));
    assert_eq!(secs_str_to_u64("soon"), None);
    let text = system_time_to_secs_str(77 * SECOND);
    assert_eq!(secs_str_to_u64(&text), Some(77));
}

/// An expiry is cut to about a hundred years before it is added.
#[test]
fn expiries_are_cut() {
    assert_eq!(cap(secs(60)), secs(60));
    assert_eq!(cap(MAX_EXPIRY + 1), MAX_EXPIRY);
    assert_eq!(expiry_to_secs_str(1_000 * SECOND, secs(60)), "1060");
    assert_eq!(expiry_to_secs_str(0, LAST_INSTANT), "3153600000");
}

#[test]
fn clock_does_not_run_backwards() {
    let clock = SystemClock::start();
    let first = clock.now();
    let second = clock.now();
    assert!(first <= second);
    assert!(second <= LAST_INSTANT);
}

/// Before the year 10000 the texts of times are in the order of the times.
#[test]
fn texts_of_times_are_in_order() {
    let times = [
        0, 59, 60, 3_599, 3_600, 86_399, 86_400, 951_782_399, 951_782_400, 951_868_800,
        1_750_000_000, 4_107_542_400, 253_402_300_799,
    ];
    for pair in times.windows(2) {
        let (x, y) = (epoch_secs_to_iso8601(pair[0]), epoch_secs_to_iso8601(pair[1]));
        assert!(x < y, "{x} {y}");
        assert_eq!(x.len(), 20);
    }
    assert_eq!(epoch_secs_to_iso8601(253_402_300_799), "9999-12-31T23:59:59Z");
}
