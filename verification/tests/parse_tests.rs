use shelter_core::parse::adapt;
use shelter_core::parse::parse;
use shelter_core::types::RawItem;
use shelter_core::types::RawPair;
use shelter_core::types::ShelterEntry;
use shelter_core::types::ShelterParseOptions;
use shelter_core::types::ShelterQuoteType;
use shelter_core::types::ShelterResult;
use shelter_core::version;

fn default_options() -> ShelterParseOptions {
    ShelterParseOptions::default()
}

#[test]
fn parse_two_pairs_with_positions() {
    let r = parse(b"FOO=bar\nBAZ=qux", default_options());
    assert!(r.error.is_none());
    assert_eq!(r.line_offsets, vec![0, 8]);
    assert_eq!(r.entries.len(), 2);

    let e0 = &r.entries[0];
    assert_eq!(e0.key, "FOO");
    assert_eq!(e0.value, "bar");
    assert_eq!((e0.key_start, e0.key_end), (0, 3));
    assert_eq!((e0.value_start, e0.value_end), (4, 7));
    assert_eq!(e0.line_number, 1);
    assert_eq!(e0.value_end_line, 1);
    assert_eq!(e0.quote_type, ShelterQuoteType::Unquoted);
    assert!(!e0.is_exported);
    assert!(!e0.is_comment);

    let e1 = &r.entries[1];
    assert_eq!(e1.key, "BAZ");
    assert_eq!(e1.value, "qux");
    assert_eq!(e1.line_number, 2);
    assert_eq!(e1.value_end_line, 2);
}

#[test]
fn parse_empty_input_succeeds_with_no_entries() {
    let r = parse(b"", default_options());
    assert!(r.error.is_none());
    assert_eq!(r.entries.len(), 0);
    // The line index always holds at least offset 0.
    assert_eq!(r.line_offsets, vec![0]);
}

#[test]
fn parse_invalid_utf8_yields_error_state() {
    let r = parse(&[0xff, 0xfe, 0x41], default_options());
    let message = r.error.expect("error state");
    assert!(message.starts_with("Invalid UTF-8: "));
    // The diagnostic carries the decode error's detail after the prefix.
    assert!(message.len() > "Invalid UTF-8: ".len());
    assert_eq!(r.entries.len(), 0);
    assert_eq!(r.line_offsets.len(), 0);
}

#[test]
fn invalid_utf8_diagnostic_names_the_bad_position() {
    // The bad byte sits at index 4; std's decode error names it.
    let r = parse(&[b'A', b'=', b'1', b'\n', 0xf0, 0x28], default_options());
    let message = r.error.expect("error state");
    assert!(message.starts_with("Invalid UTF-8: "));
    assert!(message.contains('4'));
}

#[test]
fn comment_and_error_lines_never_surface_as_entries() {
    let input = b"# a comment line\nFOO=bar\n123BAD=x\nBAZ=qux\n";
    let r = parse(input, default_options());
    assert!(r.error.is_none());
    let keys: Vec<&str> = r.entries.iter().map(|e| e.key.as_str()).collect();
    assert_eq!(keys, vec!["FOO", "BAZ"]);
}

#[test]
fn parse_without_position_tracking_reports_zero_positions() {
    let opts = ShelterParseOptions { include_comments: true, track_positions: false };
    let r = parse(b"FOO=bar", opts);
    assert!(r.error.is_none());
    assert_eq!(r.entries.len(), 1);
    let e = &r.entries[0];
    assert_eq!(e.key, "FOO");
    assert_eq!(e.value, "bar");
    assert_eq!((e.key_start, e.key_end), (0, 0));
    assert_eq!((e.value_start, e.value_end), (0, 0));
    assert_eq!(e.line_number, 0);
    assert_eq!(e.value_end_line, 0);
}

#[test]
fn exported_pair_sets_flag() {
    let r = parse(b"export FOO=bar", default_options());
    assert_eq!(r.entries.len(), 1);
    assert!(r.entries[0].is_exported);
    assert_eq!(r.entries[0].key, "FOO");
}

#[test]
fn quoted_values_record_quote_style() {
    let r = parse(b"A='single'\nB=\"double\"", default_options());
    assert_eq!(r.entries.len(), 2);
    assert_eq!(r.entries[0].value, "single");
    assert_eq!(r.entries[0].quote_type, ShelterQuoteType::Single);
    assert_eq!(r.entries[1].value, "double");
    assert_eq!(r.entries[1].quote_type, ShelterQuoteType::Double);
}

#[test]
fn multi_line_value_ends_on_a_later_line() {
    // The single-quoted value spans a line break.
    let r = parse(b"A='x\ny'", default_options());
    assert_eq!(r.entries.len(), 1);
    let e = &r.entries[0];
    assert_eq!(e.value, "x\ny");
    assert_eq!(e.line_number, 1);
    assert_eq!(e.value_end_line, 2);
}

#[test]
fn value_span_ending_at_line_boundary_stays_on_its_line() {
    // The value's span ends exactly where line 2 begins; its last real byte
    // is still on line 1.
    let r = parse(b"FOO=bar\nBAZ=qux", default_options());
    let e = &r.entries[0];
    assert_eq!(e.value_end, 7);
    assert_eq!(e.value_end_line, 1);
}

#[test]
fn adapt_drops_comment_and_error_items() {
    let items = vec![
        RawItem::Comment,
        RawItem::Pair(RawPair {
            key: "KEY".to_string(),
            value: "val".to_string(),
            key_span: Some((0, 3)),
            value_span: Some((4, 7)),
            quote: ShelterQuoteType::Unquoted,
            is_exported: false,
            is_comment: false,
        }),
        RawItem::Error,
    ];
    let entries = adapt(items, &[0]);
    assert_eq!(entries.len(), 1);
    assert_eq!(entries[0].key, "KEY");
    assert_eq!(entries[0].line_number, 1);
}

#[test]
fn adapt_resolves_lines_through_the_index() {
    let pair = |start: usize| RawPair {
        key: "K".to_string(),
        value: "v".to_string(),
        key_span: Some((start, start + 1)),
        value_span: Some((start + 2, start + 3)),
        quote: ShelterQuoteType::Unquoted,
        is_exported: false,
        is_comment: false,
    };
    // Index of a text whose lines start at 0, 4 and 9.
    let starts = vec![0usize, 4, 9];
    let items = vec![RawItem::Pair(pair(0)), RawItem::Pair(pair(5)), RawItem::Pair(pair(10))];
    let entries = adapt(items, &starts);
    let lines: Vec<usize> = entries.iter().map(|e| e.line_number).collect();
    assert_eq!(lines, vec![1, 2, 3]);
}

#[test]
fn from_korni_without_spans_uses_zeroes() {
    let p = RawPair {
        key: "K".to_string(),
        value: "v".to_string(),
        key_span: None,
        value_span: None,
        quote: ShelterQuoteType::Double,
        is_exported: true,
        is_comment: true,
    };
    let e = ShelterEntry::from_korni(&p, 0, 0);
    assert_eq!((e.key_start, e.key_end, e.value_start, e.value_end), (0, 0, 0, 0));
    assert_eq!(e.quote_type, ShelterQuoteType::Double);
    assert!(e.is_exported);
    assert!(e.is_comment);
}

#[test]
fn repeated_parse_cycles_with_zero_one_and_many_entries() {
    // Every parse result is an independently owned unit with a single
    // release path; building and dropping many of them, including results
    // with zero entries, must be safe.
    for _ in 0..100 {
        let zero = parse(b"# only a comment", default_options());
        assert!(zero.error.is_none());
        assert_eq!(zero.entries.len(), 0);

        let one = parse(b"ONE=1", default_options());
        assert_eq!(one.entries.len(), 1);

        let many = parse(b"A=1\nB=2\nC=3\nD=4\nE=5", default_options());
        assert_eq!(many.entries.len(), 5);

        let failed = parse(&[0x80], default_options());
        assert!(failed.error.is_some());
        drop(zero);
        drop(one);
        drop(many);
        drop(failed);
    }
}

#[test]
fn parse_options_default_enables_both_switches() {
    let opts = ShelterParseOptions::default();
    assert!(opts.include_comments);
    assert!(opts.track_positions);
}

#[test]
fn error_result_carries_no_data() {
    let r = ShelterResult::err("boom");
    assert_eq!(r.error.as_deref(), Some("boom"));
    assert!(r.entries.is_empty());
    assert!(r.line_offsets.is_empty());
}

#[test]
fn ok_result_carries_no_error() {
    let r = ShelterResult::ok(Vec::new(), vec![0]);
    assert!(r.error.is_none());
    assert!(r.entries.is_empty());
    assert_eq!(r.line_offsets, vec![0]);
}

#[test]
fn version_is_static() {
    assert_eq!(version(), "0.1.0");
}
