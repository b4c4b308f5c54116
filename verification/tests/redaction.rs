use channel_migrator::messages::{ForwardedMessage, EMPTY_MESSAGE};
use channel_migrator::redaction::{filter_text, redact, sanitize, EMAIL_PATTERN, REDACTED};
use channel_migrator::text::slice;

#[test]
fn redacts_a_bare_address_and_keeps_a_shielded_one() {
    let out = sanitize(String::from("contact a@b.com or <a@b.com>"));
    assert_eq!(out, "contact [email] or <a@b.com>");
}

#[test]
fn empty_text_becomes_the_placeholder() {
    assert_eq!(sanitize(String::new()), "-# _[empty message]_");
    assert_eq!(sanitize(String::new()), EMPTY_MESSAGE);
}

#[test]
fn text_without_addresses_is_unchanged() {
    assert_eq!(sanitize(String::from("hello")), "hello");
    assert_eq!(filter_text(String::from("hello")), "hello");
}

#[test]
fn sanitise_content_only_fills_in_the_placeholder() {
    assert_eq!(ForwardedMessage::sanitise_content(String::new()), "-# _[empty message]_");
    assert_eq!(
        ForwardedMessage::sanitise_content(String::from("mail me: a@b.com")),
        "mail me: a@b.com"
    );
}

#[test]
fn filter_text_of_empty_text_is_empty() {
    assert_eq!(filter_text(String::new()), "");
}

#[test]
fn the_placeholder_holds_no_address() {
    assert_eq!(filter_text(String::from(EMPTY_MESSAGE)), EMPTY_MESSAGE);
}

#[test]
fn sanitizing_twice_is_sanitizing_once() {
    for text in [
        "",
        "hello",
        "contact a@b.com or <a@b.com>",
        "a@b.com",
        "<a@b.com",
        "x@y.zz<c@d.ee> and c@d.ee",
        "first.last+tag@sub.example.org, second_one%x@host-name.io.",
        "u@v.comx@y.zz",
        "<a@b.cc1@d.ee",
        "é è@é.fr ü@example.com",
    ] {
        let once = sanitize(String::from(text));
        let twice = sanitize(once.clone());
        assert_eq!(twice, once, "for {text:?}");
    }
}

#[test]
fn every_bare_address_is_redacted_from_left_to_right() {
    assert_eq!(
        filter_text(String::from("a@b.com, c.d@e-f.org and g+h@i.jk.lm!")),
        "[email], [email] and [email]!"
    );
}

#[test]
fn an_address_at_the_start_is_not_shielded() {
    assert_eq!(filter_text(String::from("a@b.com<")), "[email]<");
}

#[test]
fn what_is_no_address_stays() {
    assert_eq!(filter_text(String::from("a@b and @c.de and f@g.h")), "a@b and @c.de and f@g.h");
}

#[test]
fn offsets_count_bytes_not_characters() {
    assert_eq!(filter_text(String::from("é ü x@y.org <x@y.org> ñ")), "é ü [email] <x@y.org> ñ");
}

#[test]
fn redact_cuts_at_byte_offsets() {
    // "é" takes two bytes, so the address starts at byte 3.
    let out = redact("é x@y.org!", &vec![(3, 10)]);
    assert_eq!(out, "é [email]!");
}

#[test]
fn redact_without_spans_copies_the_text() {
    assert_eq!(redact("a@b.com", &vec![]), "a@b.com");
    assert_eq!(redact("", &vec![]), "");
}

#[test]
fn redact_copies_a_span_that_follows_an_angle_bracket() {
    assert_eq!(redact("<abc> abc", &vec![(1, 4), (6, 9)]), "<abc> [email]");
}

#[test]
fn redact_handles_adjacent_and_empty_spans() {
    assert_eq!(redact("abcd", &vec![(0, 2), (2, 4)]), "[email][email]");
    assert_eq!(redact("ab", &vec![(1, 1)]), "a[email]b");
}

#[test]
fn the_constants_are_as_documented() {
    assert_eq!(REDACTED, "[email]");
    assert_eq!(EMAIL_PATTERN, r"[A-Za-z0-9._%+-]+@[A-Za-z0-9.-]+\.[A-Za-z]{2,}");
}

#[test]
fn slice_counts_bytes() {
    assert_eq!(slice("héllo", 0, 1), "h");
    assert_eq!(slice("héllo", 1, 3), "é");
    assert_eq!(slice("héllo", 3, 6), "llo");
    assert_eq!(slice("héllo", 6, 6), "");
    assert_eq!(slice("héllo", 0, 6), "héllo");
}
