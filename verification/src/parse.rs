//! Entry adapter and the parse entry point: raw text and the two parse
//! switches go in; an ordered sequence of position-annotated entries and the
//! line index come out, packaged as a tagged success/error result.

use vstd::prelude::*;
use vstd::string::*;
use vstd::utf8::*;

use crate::line_index::build_line_starts;
use crate::line_index::lemma_line_starts_wf;
use crate::line_index::lemma_resolve_line_bounds;
use crate::line_index::lemma_resolve_line_monotonic;
use crate::line_index::lemma_resolve_line_positive;
use crate::line_index::line_starts_of;
use crate::line_index::offset_to_line_binary;
use crate::line_index::resolve_line;
use crate::line_index::wf_line_index;
use crate::types::RawItem;
use crate::types::RawItemV;
use crate::types::RawPairV;
use crate::types::ShelterEntry;
use crate::types::ShelterEntryV;
use crate::types::ShelterParseOptions;
use crate::types::ShelterResult;
use crate::types::entry_of_pair;
use crate::types::wf_pair_spans;

verus! {

/// The items the tokenizer yields for the given text and switches. The
/// tokenizer is an external collaborator specified only at its interface;
/// its output is a function of these arguments alone.
pub uninterp spec fn tokens_of(text: Seq<char>, include_comments: bool, track_positions: bool) -> Seq<
    RawItemV,
>;

/// Relies on `core::str::from_utf8`: returns `Ok` exactly on valid UTF-8,
/// decoding the bytes to the characters they encode. The error case carries
/// std's rendering of the decode error, which names where decoding failed.
#[verifier::external_body]
fn bytes_to_str(bytes: &[u8]) -> (r: Result<&str, String>)
    ensures
        r is Ok <==> valid_utf8(bytes@),
        r matches Ok(s) ==> s@ == decode_utf8(bytes@),
{
    core::str::from_utf8(bytes).map_err(|e| e.to_string())
}

/// Relies on `korni::parse_with_options`: tokenizes the text into an ordered
/// sequence of pair, comment, and error items; a pair item carries key and
/// value text, optional byte spans, quote style, and the exported and
/// comment flags. Spans are present in pairs exactly when positions are
/// tracked; the tokenizer computes each as start plus length, places the
/// raw value after the equals sign that follows the key, and cuts both
/// within the input, so they are ordered and in bounds.
#[verifier::external_body]
fn tokenize(text: &str, include_comments: bool, track_positions: bool) -> (r: Vec<RawItem>)
    ensures
        r@.map_values(|it: RawItem| it@) == tokens_of(text@, include_comments, track_positions),
        forall|j: int|
            0 <= j < r@.len() ==> match #[trigger] r@[j]@ {
                RawItemV::Pair(p) => wf_pair_spans(p, text.spec_bytes().len()),
                _ => true,
            },
{
    korni::parse_with_options(text, korni::ParseOptions { include_comments, track_positions })
        .into_iter()
        .map(|entry| match entry {
            korni::Entry::Pair(kv) => crate::types::pair_item(
                kv.key.into_owned(), kv.value.into_owned(),
                kv.key_span.map(|s| (s.start.offset, s.end.offset)),
                kv.value_span.map(|s| (s.start.offset, s.end.offset)),
                kv.quote == korni::QuoteType::Single, kv.quote == korni::QuoteType::Double,
                kv.is_exported, kv.is_comment,
            ),
            korni::Entry::Comment(_) => RawItem::Comment,
            korni::Entry::Error(_) => RawItem::Error,
        })
        .collect()
}

/// The byte offset whose line attributes a value span's end: one before the
/// end offset, so a span ending exactly at a line boundary belongs to the
/// line holding its last real byte.
pub open spec fn value_end_probe(value_end: usize) -> usize {
    if value_end == 0 {
        0usize
    } else {
        (value_end - 1) as usize
    }
}

/// The entry a pair item maps to under the line index `starts`: the line
/// number comes from the key span's start (0 without a span), the value end
/// line from the value span's end minus one byte (the line number without a
/// span).
pub open spec fn adapt_pair(p: RawPairV, starts: Seq<usize>) -> ShelterEntryV {
    let line_number = match p.key_span {
        Some(ks) => resolve_line(starts, ks.0) as usize,
        None => 0usize,
    };
    let value_end_line = match p.value_span {
        Some(vs) => resolve_line(starts, value_end_probe(vs.1)) as usize,
        None => line_number,
    };
    entry_of_pair(p, line_number, value_end_line)
}

/// The entries the adapter produces: pair items adapted in order, comment
/// and error items dropped.
pub open spec fn adapt_seq(items: Seq<RawItemV>, starts: Seq<usize>) -> Seq<ShelterEntryV>
    decreases items.len(),
{
    if items.len() == 0 {
        Seq::empty()
    } else {
        let rest = adapt_seq(items.drop_last(), starts);
        match items.last() {
            RawItemV::Pair(p) => rest.push(adapt_pair(p, starts)),
            _ => rest,
        }
    }
}

/// The pair items of a tokenizer output, in order.
pub open spec fn pair_items(items: Seq<RawItemV>) -> Seq<RawPairV>
    decreases items.len(),
{
    if items.len() == 0 {
        Seq::empty()
    } else {
        let rest = pair_items(items.drop_last());
        match items.last() {
            RawItemV::Pair(p) => rest.push(p),
            _ => rest,
        }
    }
}

/// Law: comment and error items never surface as entries. The adapter's
/// output is exactly the sequence of pair items, adapted in order.
pub proof fn lemma_only_pairs_surface(items: Seq<RawItemV>, starts: Seq<usize>)
    ensures
        adapt_seq(items, starts) =~= pair_items(items).map_values(
            |p: RawPairV| adapt_pair(p, starts),
        ),
        adapt_seq(items, starts).len() == pair_items(items).len(),
    decreases items.len(),
{
    if items.len() == 0 {
    } else {
        lemma_only_pairs_surface(items.drop_last(), starts);
    }
}

/// Law: round trip between the tokenizer's spans and the line index. For
/// every adapted entry whose pair item carries a key span, resolving the
/// span's start through the index reproduces the entry's line number.
pub proof fn lemma_line_number_round_trip(items: Seq<RawItemV>, starts: Seq<usize>, j: int)
    requires
        starts.len() <= usize::MAX,
        0 <= j < pair_items(items).len(),
        pair_items(items)[j].key_span is Some,
    ensures
        adapt_seq(items, starts).len() == pair_items(items).len(),
        adapt_seq(items, starts)[j].key_start == match pair_items(items)[j].key_span {
            Some(ks) => ks.0,
            None => 0usize,
        },
        adapt_seq(items, starts)[j].line_number == resolve_line(
            starts,
            adapt_seq(items, starts)[j].key_start,
        ),
{
    lemma_only_pairs_surface(items, starts);
    let p = pair_items(items)[j];
    match p.key_span {
        Some(ks) => {
            crate::line_index::lemma_resolve_line_bounds(starts, ks.0);
        },
        None => {},
    }
}

/// Every pair item is some item of the input sequence.
proof fn lemma_pair_items_membership(items: Seq<RawItemV>, j: int)
    requires
        0 <= j < pair_items(items).len(),
    ensures
        exists|i: int| 0 <= i < items.len() && items[i] == RawItemV::Pair(pair_items(items)[j]),
    decreases items.len(),
{
    assert(items.len() > 0);
    let pre = pair_items(items.drop_last());
    match items.last() {
        RawItemV::Pair(p) => {
            if j < pre.len() {
                lemma_pair_items_membership(items.drop_last(), j);
                let i = choose|i: int|
                    0 <= i < items.drop_last().len() && items.drop_last()[i] == RawItemV::Pair(
                        pre[j],
                    );
                assert(items[i] == RawItemV::Pair(pair_items(items)[j]));
            } else {
                assert(items[items.len() - 1] == RawItemV::Pair(pair_items(items)[j]));
            }
        },
        _ => {
            lemma_pair_items_membership(items.drop_last(), j);
            let i = choose|i: int|
                0 <= i < items.drop_last().len() && items.drop_last()[i] == RawItemV::Pair(pre[j]);
            assert(items[i] == RawItemV::Pair(pair_items(items)[j]));
        },
    }
}

/// The entry invariants of adapted entries, given sane tokenizer spans: key
/// and value spans are ordered, the value's end line never precedes the
/// key's line, and a pair that carries spans lands on a line of at least 1.
pub proof fn lemma_adapt_entry_invariants(
    items: Seq<RawItemV>,
    starts: Seq<usize>,
    text_bytes: nat,
    j: int,
)
    requires
        wf_line_index(starts),
        starts.len() <= usize::MAX,
        forall|i: int|
            0 <= i < items.len() ==> match #[trigger] items[i] {
                RawItemV::Pair(p) => wf_pair_spans(p, text_bytes),
                _ => true,
            },
        0 <= j < adapt_seq(items, starts).len(),
    ensures
        adapt_seq(items, starts)[j].key_start <= adapt_seq(items, starts)[j].key_end,
        adapt_seq(items, starts)[j].value_start <= adapt_seq(items, starts)[j].value_end,
        adapt_seq(items, starts)[j].line_number <= adapt_seq(items, starts)[j].value_end_line,
        pair_items(items)[j].key_span is Some ==> 1 <= adapt_seq(items, starts)[j].line_number,
{
    lemma_only_pairs_surface(items, starts);
    lemma_pair_items_membership(items, j);
    let p = pair_items(items)[j];
    let i = choose|i: int| 0 <= i < items.len() && items[i] == RawItemV::Pair(p);
    assert(wf_pair_spans(p, text_bytes));
    assert(adapt_seq(items, starts)[j] == adapt_pair(p, starts));
    match (p.key_span, p.value_span) {
        (Some(ks), Some(vs)) => {
            lemma_resolve_line_positive(starts, ks.0);
            lemma_resolve_line_bounds(starts, ks.0);
            let probe = value_end_probe(vs.1);
            lemma_resolve_line_bounds(starts, probe);
            assert(ks.0 <= probe);
            lemma_resolve_line_monotonic(starts, ks.0, probe);
        },
        _ => {},
    }
}

/// Map tokenizer items to entries: pair items become entries with line
/// numbers resolved through the index, comment and error items are dropped.
pub fn adapt(items: Vec<RawItem>, line_starts: &[usize]) -> (entries: Vec<ShelterEntry>)
    requires
        wf_line_index(line_starts@),
    ensures
        entries@.map_values(|e: ShelterEntry| e@) == adapt_seq(
            items@.map_values(|it: RawItem| it@),
            line_starts@,
        ),
{
    let ghost items_v = items@.map_values(|it: RawItem| it@);
    let mut entries: Vec<ShelterEntry> = Vec::with_capacity(items.len());
    let n = items.len();
    let mut i: usize = 0;
    while i < n
        invariant
            n == items@.len(),
            0 <= i <= n,
            items_v == items@.map_values(|it: RawItem| it@),
            wf_line_index(line_starts@),
            entries@.map_values(|e: ShelterEntry| e@) == adapt_seq(
                items_v.take(i as int),
                line_starts@,
            ),
        decreases n - i,
    {
        proof {
            assert(items_v.take(i + 1).drop_last() =~= items_v.take(i as int));
            assert(items_v.take(i + 1).last() == items_v[i as int]);
        }
        match &items[i] {
            RawItem::Pair(p) => {
                let line_number = match p.key_span {
                    Some(ks) => offset_to_line_binary(line_starts, ks.0),
                    None => 0,
                };
                let value_end_line = match p.value_span {
                    Some(vs) => offset_to_line_binary(
                        line_starts,
                        if vs.1 == 0 {
                            0
                        } else {
                            vs.1 - 1
                        },
                    ),
                    None => line_number,
                };
                let entry = ShelterEntry::from_korni(p, line_number, value_end_line);
                entries.push(entry);
                proof {
                    assert(entries@.map_values(|e: ShelterEntry| e@) =~= adapt_seq(
                        items_v.take(i + 1),
                        line_starts@,
                    ));
                }
            },
            RawItem::Comment | RawItem::Error => {
                proof {
                    assert(entries@.map_values(|e: ShelterEntry| e@) =~= adapt_seq(
                        items_v.take(i + 1),
                        line_starts@,
                    ));
                }
            },
        }
        i += 1;
    }
    proof {
        assert(items_v.take(n as int) =~= items_v);
    }
    entries
}

/// The diagnostic of an undecodable input: the fixed prefix, followed by
/// the decode error's rendering.
pub open spec fn is_utf8_diagnostic(m: Seq<char>) -> bool {
    &&& m.len() >= "Invalid UTF-8: "@.len()
    &&& m.take("Invalid UTF-8: "@.len() as int) == "Invalid UTF-8: "@
}

/// Parse raw text under the given switches. Valid UTF-8 yields the success
/// state: the tokenizer's pair items adapted in order, each entry with
/// ordered spans and its value-end line no earlier than its key's line,
/// plus the line index of the text. Invalid UTF-8 yields the error state
/// with a diagnostic carrying the decode error, and nothing else.
pub fn parse(input: &[u8], options: ShelterParseOptions) -> (r: ShelterResult)
    ensures
        r.wf(),
        valid_utf8(input@) ==> {
            &&& r.error is None
            &&& r.line_offsets@ == line_starts_of(input@)
            &&& r.entries@.map_values(|e: ShelterEntry| e@) == adapt_seq(
                tokens_of(decode_utf8(input@), options.include_comments, options.track_positions),
                line_starts_of(input@),
            )
            &&& forall|j: int|
                0 <= j < r.entries@.len() ==> {
                    let e = #[trigger] r.entries@[j]@;
                    &&& e.key_start <= e.key_end
                    &&& e.value_start <= e.value_end
                    &&& e.line_number <= e.value_end_line
                }
        },
        !valid_utf8(input@) ==> {
            &&& r.error matches Some(m) && is_utf8_diagnostic(m@)
            &&& r.entries@.len() == 0
            &&& r.line_offsets@.len() == 0
        },
{
    match bytes_to_str(input) {
        Err(detail) => {
            let mut message = String::from_str("Invalid UTF-8: ");
            message.append(detail.as_str());
            proof {
                assert(message@.take("Invalid UTF-8: "@.len() as int) =~= "Invalid UTF-8: "@);
            }
            ShelterResult::err(message.as_str())
        },
        Ok(text) => {
            let items = tokenize(text, options.include_comments, options.track_positions);
            let n = input.len();
            let line_starts = build_line_starts(input);
            let line_count = line_starts.len();
            proof {
                assert(input@.len() == n);
                lemma_line_starts_wf(input@);
                assert(line_starts@.len() == line_count);
            }
            let entries = adapt(items, line_starts.as_slice());
            proof {
                let tokens = tokens_of(
                    decode_utf8(input@),
                    options.include_comments,
                    options.track_positions,
                );
                assert(items@.map_values(|it: RawItem| it@) == tokens);
                assert forall|i: int|
                    0 <= i < tokens.len() implies match #[trigger] tokens[i] {
                        RawItemV::Pair(p) => wf_pair_spans(p, text.spec_bytes().len()),
                        _ => true,
                    } by {
                    assert(tokens[i] == items@.map_values(|it: RawItem| it@)[i]);
                    assert(tokens[i] == items@[i]@);
                }
                assert forall|j: int| 0 <= j < entries@.len() implies {
                    let e = #[trigger] entries@[j]@;
                    &&& e.key_start <= e.key_end
                    &&& e.value_start <= e.value_end
                    &&& e.line_number <= e.value_end_line
                } by {
                    assert(entries@.map_values(|e: ShelterEntry| e@)[j] == entries@[j]@);
                    lemma_adapt_entry_invariants(
                        tokens,
                        line_starts@,
                        text.spec_bytes().len(),
                        j,
                    );
                }
            }
            ShelterResult::ok(entries, line_starts)
        },
    }
}

} // verus!
