//! The data model: parse options, mask options, tokenizer items reduced to
//! plain values, entries, and the tagged success/error parse result.

use vstd::prelude::*;

verus! {

/// Quote style of a parsed value.
#[derive(Clone, Copy, Debug, PartialEq, Eq, Structural)]
pub enum ShelterQuoteType {
    /// No quotes around the value.
    Unquoted,
    /// Single-quoted value.
    Single,
    /// Double-quoted value.
    Double,
}

/// The two independent switches handed to the tokenizer.
#[derive(Clone, Copy, Debug, PartialEq, Eq, Structural)]
pub struct ShelterParseOptions {
    /// Include comment entries in the tokenizer output.
    pub include_comments: bool,
    /// Track byte spans of keys and values.
    pub track_positions: bool,
}

impl Default for ShelterParseOptions {
    fn default() -> (r: Self)
        ensures
            r.include_comments,
            r.track_positions,
    {
        ShelterParseOptions { include_comments: true, track_positions: true }
    }
}

/// Masking mode selected by `ShelterMaskOptions`.
#[derive(Clone, Copy, Debug, PartialEq, Eq, Structural)]
pub enum ShelterMaskMode {
    /// Replace every character.
    Full,
    /// Keep a prefix and a suffix, mask the middle.
    Partial,
}

/// Parameters of the configuration-driven masking entry point.
#[derive(Clone, Copy, Debug)]
pub struct ShelterMaskOptions {
    /// Character used for masking.
    pub mask_char: char,
    /// Fixed output length in characters; 0 derives the length from the input.
    pub mask_length: usize,
    /// Masking mode.
    pub mode: ShelterMaskMode,
    /// Characters shown verbatim at the start (partial mode).
    pub show_start: usize,
    /// Characters shown verbatim at the end (partial mode).
    pub show_end: usize,
    /// Minimum number of masked characters required (partial mode).
    pub min_mask: usize,
}

impl Default for ShelterMaskOptions {
    fn default() -> (r: Self)
        ensures
            r.mask_char == '*',
            r.mask_length == 0,
            r.mode == ShelterMaskMode::Full,
            r.show_start == 0,
            r.show_end == 0,
            r.min_mask == 3,
    {
        ShelterMaskOptions {
            mask_char: '*',
            mask_length: 0,
            mode: ShelterMaskMode::Full,
            show_start: 0,
            show_end: 0,
            min_mask: 3,
        }
    }
}

/// A key/value item of the tokenizer output, reduced to plain values.
pub struct RawPair {
    /// Key text.
    pub key: String,
    /// Value text, with quotes and escapes already processed.
    pub value: String,
    /// Half-open byte span of the key, when positions are tracked.
    pub key_span: Option<(usize, usize)>,
    /// Half-open byte span of the raw value, when positions are tracked.
    pub value_span: Option<(usize, usize)>,
    /// Quote style of the value.
    pub quote: ShelterQuoteType,
    /// The pair was prefixed by an export marker.
    pub is_exported: bool,
    /// The pair lexically sits on a commented line.
    pub is_comment: bool,
}

/// Mathematical model of a `RawPair`.
pub ghost struct RawPairV {
    pub key: Seq<char>,
    pub value: Seq<char>,
    pub key_span: Option<(usize, usize)>,
    pub value_span: Option<(usize, usize)>,
    pub quote: ShelterQuoteType,
    pub is_exported: bool,
    pub is_comment: bool,
}

impl View for RawPair {
    type V = RawPairV;

    open spec fn view(&self) -> RawPairV {
        RawPairV {
            key: self.key@,
            value: self.value@,
            key_span: self.key_span,
            value_span: self.value_span,
            quote: self.quote,
            is_exported: self.is_exported,
            is_comment: self.is_comment,
        }
    }
}

/// Sane spans of a pair item over a text of `text_bytes` bytes: the two
/// spans are present together or absent together; when present, each is
/// ordered, the value's raw span begins after the key ends (the equals sign
/// sits between them), and both lie within the text.
pub open spec fn wf_pair_spans(p: RawPairV, text_bytes: nat) -> bool {
    &&& p.key_span is Some <==> p.value_span is Some
    &&& match (p.key_span, p.value_span) {
        (Some(ks), Some(vs)) => {
            &&& ks.0 <= ks.1
            &&& ks.1 < vs.0
            &&& vs.0 <= vs.1
            &&& vs.1 <= text_bytes
        },
        _ => true,
    }
}

/// One item of the tokenizer output: a key/value pair, a standalone comment,
/// or a recovered tokenizer-level error.
pub enum RawItem {
    /// A key/value pair.
    Pair(RawPair),
    /// A standalone comment line.
    Comment,
    /// A malformed line the tokenizer recovered from.
    Error,
}

/// Mathematical model of a `RawItem`.
pub ghost enum RawItemV {
    Pair(RawPairV),
    Comment,
    Error,
}

impl View for RawItem {
    type V = RawItemV;

    open spec fn view(&self) -> RawItemV {
        match self {
            RawItem::Pair(p) => RawItemV::Pair(p@),
            RawItem::Comment => RawItemV::Comment,
            RawItem::Error => RawItemV::Error,
        }
    }
}

/// Package the plain values of a tokenizer pair item, with the quote style
/// given as two mutually exclusive flags, as a pair item.
pub(crate) fn pair_item(
    key: String,
    value: String,
    key_span: Option<(usize, usize)>,
    value_span: Option<(usize, usize)>,
    single: bool,
    double: bool,
    is_exported: bool,
    is_comment: bool,
) -> (r: RawItem)
    ensures
        r@ == RawItemV::Pair(
            RawPairV {
                key: key@,
                value: value@,
                key_span,
                value_span,
                quote: if single {
                    ShelterQuoteType::Single
                } else if double {
                    ShelterQuoteType::Double
                } else {
                    ShelterQuoteType::Unquoted
                },
                is_exported,
                is_comment,
            },
        ),
{
    let quote = if single {
        ShelterQuoteType::Single
    } else if double {
        ShelterQuoteType::Double
    } else {
        ShelterQuoteType::Unquoted
    };
    RawItem::Pair(RawPair { key, value, key_span, value_span, quote, is_exported, is_comment })
}

/// One key/value occurrence, annotated with byte spans and line numbers.
pub struct ShelterEntry {
    /// Key text.
    pub key: String,
    /// Value text.
    pub value: String,
    /// Byte offset where the key starts (0 when positions are not tracked).
    pub key_start: usize,
    /// Byte offset where the key ends.
    pub key_end: usize,
    /// Byte offset where the raw value starts.
    pub value_start: usize,
    /// Byte offset where the raw value ends.
    pub value_end: usize,
    /// 1-based line of the key; 0 when unknown.
    pub line_number: usize,
    /// 1-based line where the value's span ends; multi-line values end on a
    /// later line than they start.
    pub value_end_line: usize,
    /// Quote style of the value.
    pub quote_type: ShelterQuoteType,
    /// The entry was prefixed by an export marker.
    pub is_exported: bool,
    /// The entry lexically sits on a commented line.
    pub is_comment: bool,
}

/// Mathematical model of a `ShelterEntry`.
pub ghost struct ShelterEntryV {
    pub key: Seq<char>,
    pub value: Seq<char>,
    pub key_start: usize,
    pub key_end: usize,
    pub value_start: usize,
    pub value_end: usize,
    pub line_number: usize,
    pub value_end_line: usize,
    pub quote_type: ShelterQuoteType,
    pub is_exported: bool,
    pub is_comment: bool,
}

impl View for ShelterEntry {
    type V = ShelterEntryV;

    open spec fn view(&self) -> ShelterEntryV {
        ShelterEntryV {
            key: self.key@,
            value: self.value@,
            key_start: self.key_start,
            key_end: self.key_end,
            value_start: self.value_start,
            value_end: self.value_end,
            line_number: self.line_number,
            value_end_line: self.value_end_line,
            quote_type: self.quote_type,
            is_exported: self.is_exported,
            is_comment: self.is_comment,
        }
    }
}

/// The entry a pair item maps to, given its two resolved line numbers.
pub open spec fn entry_of_pair(p: RawPairV, line_number: usize, value_end_line: usize) -> ShelterEntryV {
    ShelterEntryV {
        key: p.key,
        value: p.value,
        key_start: match p.key_span { Some(ks) => ks.0, None => 0 },
        key_end: match p.key_span { Some(ks) => ks.1, None => 0 },
        value_start: match p.value_span { Some(vs) => vs.0, None => 0 },
        value_end: match p.value_span { Some(vs) => vs.1, None => 0 },
        line_number,
        value_end_line,
        quote_type: p.quote,
        is_exported: p.is_exported,
        is_comment: p.is_comment,
    }
}

impl ShelterEntry {
    /// Package a tokenizer pair item and its two resolved line numbers as an
    /// entry.
    pub fn from_korni(p: &RawPair, line_number: usize, value_end_line: usize) -> (e: Self)
        ensures
            e@ == entry_of_pair(p@, line_number, value_end_line),
    {
        let (key_start, key_end) = match p.key_span {
            Some(ks) => ks,
            None => (0, 0),
        };
        let (value_start, value_end) = match p.value_span {
            Some(vs) => vs,
            None => (0, 0),
        };
        ShelterEntry {
            key: p.key.clone(),
            value: p.value.clone(),
            key_start,
            key_end,
            value_start,
            value_end,
            line_number,
            value_end_line,
            quote_type: p.quote,
            is_exported: p.is_exported,
            is_comment: p.is_comment,
        }
    }
}

/// Result of a parse: on success an ordered sequence of entries plus the line
/// index, on failure a diagnostic message and nothing else. Exactly one of
/// the two states holds.
pub struct ShelterResult {
    /// Parsed entries, in source order; empty in the error state.
    pub entries: Vec<ShelterEntry>,
    /// Line-start byte offsets of the input; empty in the error state.
    pub line_offsets: Vec<usize>,
    /// Diagnostic message; absent in the success state.
    pub error: Option<String>,
}

impl ShelterResult {
    /// Exactly one of the two states holds: an error result carries no
    /// entries and no line index.
    pub open spec fn wf(self) -> bool {
        self.error is Some ==> self.entries@.len() == 0 && self.line_offsets@.len() == 0
    }

    /// A successful result carrying entries and the line index.
    pub fn ok(entries: Vec<ShelterEntry>, line_offsets: Vec<usize>) -> (r: Self)
        ensures
            r.entries == entries,
            r.line_offsets == line_offsets,
            r.error is None,
    {
        ShelterResult { entries, line_offsets, error: None }
    }

    /// An error result carrying a diagnostic message.
    pub fn err(message: &str) -> (r: Self)
        ensures
            r.entries@.len() == 0,
            r.line_offsets@.len() == 0,
            r.error matches Some(m) && m@ == message@,
            r.wf(),
    {
        ShelterResult {
            entries: Vec::new(),
            line_offsets: Vec::new(),
            error: Some(message.to_owned()),
        }
    }
}

} // verus!
