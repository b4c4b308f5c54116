//! Redaction of e-mail addresses.
//!
//! The search for addresses is the `regex` crate's; what is done with the
//! places it reports is decided and proved here.

use crate::messages::EMPTY_MESSAGE;
use crate::text::{lemma_encode_concat, slice};
use vstd::prelude::*;
use vstd::string::*;
use vstd::utf8::*;

verus! {

/// The shape of what counts as an e-mail address.
pub const EMAIL_PATTERN: &'static str = r"[A-Za-z0-9._%+-]+@[A-Za-z0-9.-]+\.[A-Za-z]{2,}";

/// What is written in place of an address.
pub const REDACTED: &'static str = "[email]";

/// The spans lie in `bytes`, between character boundaries, one after the
/// other and without overlap.
pub open spec fn spans_fit(bytes: Seq<u8>, spans: Seq<(usize, usize)>) -> bool {
    &&& forall|i: int|
        0 <= i < spans.len() ==> {
            &&& (#[trigger] spans[i]).0 <= spans[i].1 <= bytes.len()
            &&& is_char_boundary(bytes, spans[i].0 as int)
            &&& is_char_boundary(bytes, spans[i].1 as int)
        }
    &&& forall|i: int, j: int|
        0 <= i < j < spans.len() ==> (#[trigger] spans[i]).1 <= (#[trigger] spans[j]).0
}

/// The byte just before the span is `<`: the span is part of a link or a
/// mention and stays as it is.
pub open spec fn is_shielded(bytes: Seq<u8>, span: (usize, usize)) -> bool {
    span.0 > 0 && bytes[span.0 - 1] == 0x3c
}

/// What stands in the result for `span`.
pub open spec fn replacement(bytes: Seq<u8>, span: (usize, usize)) -> Seq<u8> {
    if is_shielded(bytes, span) {
        bytes.subrange(span.0 as int, span.1 as int)
    } else {
        encode_utf8(REDACTED@)
    }
}

/// Where the text between span `k - 1` and span `k` begins.
pub open spec fn gap_start(spans: Seq<(usize, usize)>, k: int) -> int {
    if k <= 0 {
        0
    } else {
        spans[k - 1].1 as int
    }
}

/// The result up to and including what stands for span `k - 1`.
pub open spec fn redacted_prefix(bytes: Seq<u8>, spans: Seq<(usize, usize)>, k: int) -> Seq<u8>
    decreases k,
{
    if k <= 0 {
        Seq::empty()
    } else {
        redacted_prefix(bytes, spans, k - 1) + bytes.subrange(
            gap_start(spans, k - 1),
            spans[k - 1].0 as int,
        ) + replacement(bytes, spans[k - 1])
    }
}

/// `bytes` with every span that is not shielded replaced by the token, and
/// everything else as it was.
pub open spec fn redacted(bytes: Seq<u8>, spans: Seq<(usize, usize)>) -> Seq<u8> {
    redacted_prefix(bytes, spans, spans.len() as int) + bytes.subrange(
        gap_start(spans, spans.len() as int),
        bytes.len() as int,
    )
}

/// Where every span up to span `k` is shielded, the result up to there is the
/// text up to there.
proof fn lemma_shielded_prefix(bytes: Seq<u8>, spans: Seq<(usize, usize)>, k: int)
    requires
        spans_fit(bytes, spans),
        forall|i: int| 0 <= i < spans.len() ==> is_shielded(bytes, #[trigger] spans[i]),
        0 <= k <= spans.len(),
    ensures
        redacted_prefix(bytes, spans, k) == bytes.subrange(0, gap_start(spans, k)),
    decreases k,
{
    if k > 0 {
        lemma_shielded_prefix(bytes, spans, k - 1);
        if k > 1 {
            assert(spans[k - 2].1 <= spans[k - 1].0);
        }
        assert(is_shielded(bytes, spans[k - 1]));
        assert(redacted_prefix(bytes, spans, k) =~= bytes.subrange(0, gap_start(spans, k)));
    } else {
        assert(redacted_prefix(bytes, spans, k) =~= bytes.subrange(0, 0));
    }
}

/// A pass in which every address that is found follows a `<` changes
/// nothing.
pub proof fn lemma_shielded_spans_change_nothing(bytes: Seq<u8>, spans: Seq<(usize, usize)>)
    requires
        spans_fit(bytes, spans),
        forall|i: int| 0 <= i < spans.len() ==> is_shielded(bytes, #[trigger] spans[i]),
    ensures
        redacted(bytes, spans) == bytes,
{
    lemma_shielded_prefix(bytes, spans, spans.len() as int);
    assert(redacted(bytes, spans) =~= bytes);
}

/// The byte spans of the successive matches of `pattern` in `haystack`, from
/// left to right; `None` where `pattern` does not compile.
pub uninterp spec fn regex_spans(pattern: Seq<char>, haystack: Seq<char>) -> Option<
    Seq<(usize, usize)>,
>;

/// Compiles `pattern` with `regex::Regex::new` and collects the start and end
/// of each `Match` that `Regex::find_iter` yields on `haystack`. Trusted: the
/// result is a function of the two texts alone, named `regex_spans`, and, as
/// the documentation of `find_iter` and `Match` states, the matches come in
/// order, do not overlap, and start and end on character boundaries inside
/// the haystack.
#[verifier::external_body]
fn find_spans(pattern: &str, haystack: &str) -> (found: Option<Vec<(usize, usize)>>)
    ensures
        found is Some <==> regex_spans(pattern@, haystack@) is Some,
        found matches Some(spans) ==> regex_spans(pattern@, haystack@) == Some(spans@)
            && spans_fit(encode_utf8(haystack@), spans@),
{
    match regex::Regex::new(pattern) {
        Ok(re) => Some(re.find_iter(haystack).map(|m| (m.start(), m.end())).collect()),
        Err(_) => None,
    }
}

/// Rewrites `text` around `spans`: a span that follows a `<` is copied, every
/// other span becomes the token, and the text between spans is copied.
pub fn redact(text: &str, spans: &Vec<(usize, usize)>) -> (out: String)
    requires
        spans_fit(encode_utf8(text@), spans@),
    ensures
        encode_utf8(out@) == redacted(encode_utf8(text@), spans@),
{
    let bytes = text.as_bytes();
    let mut out = String::new();
    let mut last_end: usize = 0;
    let mut k: usize = 0;
    proof {
        encode_utf8_valid_utf8(text@);
        is_char_boundary_start_end_of_seq(encode_utf8(text@));
    }
    while k < spans.len()
        invariant
            k <= spans.len(),
            spans_fit(encode_utf8(text@), spans@),
            bytes@ == encode_utf8(text@),
            last_end == gap_start(spans@, k as int),
            last_end <= bytes@.len(),
            is_char_boundary(bytes@, last_end as int),
            encode_utf8(out@) == redacted_prefix(bytes@, spans@, k as int),
        decreases spans.len() - k,
    {
        let (start, end) = spans[k];
        assert(spans@[k as int] == (start, end));
        assert(last_end <= start) by {
            if k > 0 {
                assert(spans@[k - 1].1 <= spans@[k as int].0);
            }
        }
        let shielded = start > 0 && bytes[start - 1] == 0x3c;
        let ghost before = out@;
        if shielded {
            let part = slice(text, last_end, end);
            out.append(part);
            proof {
                lemma_encode_concat(before, part@);
                assert(bytes@.subrange(last_end as int, end as int) =~= bytes@.subrange(
                    last_end as int,
                    start as int,
                ) + bytes@.subrange(start as int, end as int));
            }
        } else {
            let part = slice(text, last_end, start);
            out.append(part);
            out.append(REDACTED);
            proof {
                lemma_encode_concat(before, part@);
                lemma_encode_concat(before + part@, REDACTED@);
            }
        }
        last_end = end;
        k += 1;
    }
    let ghost before = out@;
    proof {
        encode_utf8_valid_utf8(text@);
        is_char_boundary_start_end_of_seq(encode_utf8(text@));
    }
    let rest = slice(text, last_end, bytes.len());
    out.append(rest);
    proof {
        lemma_encode_concat(before, rest@);
    }
    out
}

/// `text` after redaction with the places that the search reports for
/// `EMAIL_PATTERN`; `text` itself should the pattern not compile.
pub open spec fn filtered(text: Seq<char>) -> Seq<char> {
    match regex_spans(EMAIL_PATTERN@, text) {
        Some(spans) => decode_utf8(redacted(encode_utf8(text), spans)),
        None => text,
    }
}

/// A second pass leaves a text as the first pass made it, whenever every
/// address that the search finds in the redacted text follows a `<`.
pub proof fn lemma_filtered_twice(text: Seq<char>)
    ensures
        ({
            let once = filtered(text);
            regex_spans(EMAIL_PATTERN@, once) matches Some(again) ==> spans_fit(
                encode_utf8(once),
                again,
            ) && (forall|i: int|
                0 <= i < again.len() ==> is_shielded(encode_utf8(once), #[trigger] again[i]))
                ==> filtered(once) == once
        }),
{
    let once = filtered(text);
    if let Some(again) = regex_spans(EMAIL_PATTERN@, once) {
        if spans_fit(encode_utf8(once), again) && (forall|i: int|
            0 <= i < again.len() ==> is_shielded(encode_utf8(once), #[trigger] again[i])) {
            lemma_shielded_spans_change_nothing(encode_utf8(once), again);
            encode_utf8_decode_utf8(once);
        }
    }
}

/// Replaces each e-mail address in `text` that does not follow a `<` by the
/// token.
pub fn filter_text(text: String) -> (out: String)
    ensures
        out@ == filtered(text@),
{
    match find_spans(EMAIL_PATTERN, text.as_str()) {
        Some(spans) => {
            let out = redact(text.as_str(), &spans);
            proof {
                encode_utf8_decode_utf8(out@);
            }
            out
        },
        None => text,
    }
}

/// What becomes of a message's text: the placeholder for no text, any other
/// text with its addresses redacted.
pub open spec fn sanitized(text: Seq<char>) -> Seq<char> {
    if text.len() == 0 {
        EMPTY_MESSAGE@
    } else {
        filtered(text)
    }
}

/// Makes a message's text fit to be sent on: an empty text becomes the
/// placeholder; in any other text each e-mail address that does not follow
/// a `<` becomes the token.
pub fn sanitize(text: String) -> (out: String)
    ensures
        out@ == sanitized(text@),
{
    if text.as_str().is_empty() {
        EMPTY_MESSAGE.to_owned()
    } else {
        filter_text(text)
    }
}

} // verus!
