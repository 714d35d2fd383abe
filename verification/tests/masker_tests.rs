use shelter_core::masker::mask_fixed;
use shelter_core::masker::mask_full;
use shelter_core::masker::mask_partial;
use shelter_core::masker::mask_value;
use shelter_core::types::ShelterMaskMode;
use shelter_core::types::ShelterMaskOptions;

#[test]
fn full_mask_keeps_character_count() {
    let masked = mask_full("secret", '*');
    assert_eq!(masked, "******");
    assert_eq!(masked.chars().count(), "secret".chars().count());
    assert!(masked.chars().all(|c| c == '*'));
}

#[test]
fn full_mask_counts_characters_not_bytes() {
    let masked = mask_full("héllo wörld", '*');
    assert_eq!(masked.chars().count(), 11);
    assert!(masked.chars().all(|c| c == '*'));
}

#[test]
fn mask_character_may_itself_be_multibyte() {
    assert_eq!(mask_full("ab", '\u{2022}'), "\u{2022}\u{2022}");
}

#[test]
fn full_mask_of_empty_is_empty() {
    assert_eq!(mask_full("", '*'), "");
}

#[test]
fn partial_mask_keeps_start_and_end() {
    assert_eq!(mask_partial("abcdefgh", '*', 2, 2, 3), "ab****gh");
}

#[test]
fn partial_mask_falls_back_when_window_exceeds_length() {
    assert_eq!(mask_partial("ab", '*', 2, 2, 3), "**");
}

#[test]
fn partial_mask_falls_back_when_middle_too_short() {
    // Middle would be 2 characters, below the minimum of 3.
    assert_eq!(mask_partial("abcdef", '*', 2, 2, 3), "******");
}

#[test]
fn partial_mask_handles_multibyte_characters() {
    assert_eq!(mask_partial("héllo wörld", '*', 2, 2, 3), "hé*******ld");
}

#[test]
fn partial_mask_with_exact_window_falls_back() {
    // show_start + show_end == length triggers the fallback even with no
    // minimum on the middle.
    assert_eq!(mask_partial("abcd", '*', 2, 2, 0), "****");
}

#[test]
fn fixed_mask_ignores_input_length() {
    assert_eq!(mask_fixed("secret", '*', 4), "****");
}

#[test]
fn fixed_mask_zero_falls_back_to_natural_length() {
    assert_eq!(mask_fixed("secret", '*', 0), "******");
}

#[test]
fn mask_value_full_mode_uses_natural_length() {
    let opts = ShelterMaskOptions {
        mask_char: '#',
        mask_length: 0,
        mode: ShelterMaskMode::Full,
        show_start: 0,
        show_end: 0,
        min_mask: 3,
    };
    assert_eq!(mask_value("topsecret", &opts), "#########");
}

#[test]
fn mask_value_full_mode_with_fixed_length() {
    let opts = ShelterMaskOptions {
        mask_char: '*',
        mask_length: 5,
        mode: ShelterMaskMode::Full,
        show_start: 0,
        show_end: 0,
        min_mask: 3,
    };
    assert_eq!(mask_value("topsecret", &opts), "*****");
}

#[test]
fn mask_value_partial_mode() {
    let opts = ShelterMaskOptions {
        mask_char: '*',
        mask_length: 0,
        mode: ShelterMaskMode::Partial,
        show_start: 2,
        show_end: 2,
        min_mask: 3,
    };
    assert_eq!(mask_value("abcdefgh", &opts), "ab****gh");
}

#[test]
fn mask_value_with_default_options_masks_to_natural_length() {
    let opts = ShelterMaskOptions::default();
    assert_eq!(mask_value("hunter2", &opts), "*******");
}

#[test]
fn mask_options_default_values() {
    let opts = ShelterMaskOptions::default();
    assert_eq!(opts.mask_char, '*');
    assert_eq!(opts.mask_length, 0);
    assert_eq!(opts.mode, ShelterMaskMode::Full);
    assert_eq!(opts.show_start, 0);
    assert_eq!(opts.show_end, 0);
    assert_eq!(opts.min_mask, 3);
}
