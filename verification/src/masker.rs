//! Masking engine: four transforms that redact a secret string. All of them
//! count and index by character (Unicode scalar value), never by byte, so
//! multi-byte characters are masked or preserved atomically.

use vstd::prelude::*;
use vstd::string::*;

use crate::types::ShelterMaskMode;
use crate::types::ShelterMaskOptions;

verus! {

/// `n` copies of the character `c`.
pub open spec fn repeat_char_seq(c: char, n: nat) -> Seq<char> {
    Seq::new(n, |i: int| c)
}

/// Full mask of `s`: every character replaced, length kept.
pub open spec fn full_mask_spec(s: Seq<char>, c: char) -> Seq<char> {
    repeat_char_seq(c, s.len())
}

/// Partial masking falls back to a full mask when the start/end windows
/// overlap or exceed the string, or when the masked middle would be shorter
/// than `min_mask`.
pub open spec fn partial_falls_back(len: int, show_start: int, show_end: int, min_mask: int) -> bool {
    show_start + show_end >= len || len - show_start - show_end < min_mask
}

/// Partial mask of `s`: the first `show_start` and last `show_end`
/// characters verbatim, the middle replaced by `c`; a full mask on the
/// fallback inputs.
pub open spec fn partial_mask_spec(
    s: Seq<char>,
    c: char,
    show_start: int,
    show_end: int,
    min_mask: int,
) -> Seq<char> {
    if partial_falls_back(s.len() as int, show_start, show_end, min_mask) {
        full_mask_spec(s, c)
    } else {
        s.take(show_start) + repeat_char_seq(c, (s.len() - show_start - show_end) as nat)
            + s.skip(s.len() - show_end)
    }
}

/// Fixed-length mask: exactly `output_len` copies of `c`, or the input's own
/// character length when `output_len` is 0.
pub open spec fn fixed_mask_spec(s: Seq<char>, c: char, output_len: int) -> Seq<char> {
    if output_len == 0 {
        full_mask_spec(s, c)
    } else {
        repeat_char_seq(c, output_len as nat)
    }
}

/// What the configuration-driven dispatcher returns for each mode.
pub open spec fn mask_value_spec(s: Seq<char>, opts: ShelterMaskOptions) -> Seq<char> {
    match opts.mode {
        ShelterMaskMode::Full => fixed_mask_spec(s, opts.mask_char, opts.mask_length as int),
        ShelterMaskMode::Partial => partial_mask_spec(
            s,
            opts.mask_char,
            opts.show_start as int,
            opts.show_end as int,
            opts.min_mask as int,
        ),
    }
}

/// Relies on `String::push`: appends the given character to the end of the
/// string.
#[verifier::external_body]
fn push_char(s: &mut String, c: char)
    ensures
        final(s)@ == old(s)@.push(c),
{
    s.push(c);
}

/// A string of `n` copies of `c`.
fn repeat_char(c: char, n: usize) -> (r: String)
    ensures
        r@ == repeat_char_seq(c, n as nat),
{
    let mut r = String::new();
    let mut i: usize = 0;
    while i < n
        invariant
            0 <= i <= n,
            r@ == repeat_char_seq(c, i as nat),
        decreases n - i,
    {
        push_char(&mut r, c);
        proof {
            assert(repeat_char_seq(c, i as nat).push(c) =~= repeat_char_seq(c, (i + 1) as nat));
        }
        i += 1;
    }
    r
}

/// Replace every character of `value` with `mask_char`; the output has the
/// same character count as the input.
pub fn mask_full(value: &str, mask_char: char) -> (r: String)
    ensures
        r@ == full_mask_spec(value@, mask_char),
        r@.len() == value@.len(),
        forall|i: int| 0 <= i < r@.len() ==> r@[i] == mask_char,
{
    let n = value.unicode_len();
    repeat_char(mask_char, n)
}

/// Keep the first `show_start` and last `show_end` characters verbatim and
/// replace the middle with `mask_char`; fall back to a full mask when the
/// windows exceed the string or the masked middle would be shorter than
/// `min_mask`.
pub fn mask_partial(
    value: &str,
    mask_char: char,
    show_start: usize,
    show_end: usize,
    min_mask: usize,
) -> (r: String)
    ensures
        r@ == partial_mask_spec(
            value@,
            mask_char,
            show_start as int,
            show_end as int,
            min_mask as int,
        ),
{
    let n = value.unicode_len();
    if show_start >= n || show_end >= n - show_start {
        return mask_full(value, mask_char);
    }
    let mid = n - show_start - show_end;
    if mid < min_mask {
        return mask_full(value, mask_char);
    }
    let mut r = String::from_str(value.substring_char(0, show_start));
    let middle = repeat_char(mask_char, mid);
    r.append(middle.as_str());
    r.append(value.substring_char(n - show_end, n));
    proof {
        assert(value@.subrange(0, show_start as int) =~= value@.take(show_start as int));
        assert(value@.subrange(n - show_end, n as int) =~= value@.skip(
            value@.len() - show_end as int,
        ));
    }
    r
}

/// Return exactly `output_len` copies of `mask_char`, ignoring the input's
/// length; an `output_len` of 0 falls back to the input's own character
/// length.
pub fn mask_fixed(value: &str, mask_char: char, output_len: usize) -> (r: String)
    ensures
        r@ == fixed_mask_spec(value@, mask_char, output_len as int),
{
    if output_len == 0 {
        mask_full(value, mask_char)
    } else {
        repeat_char(mask_char, output_len)
    }
}

/// The configuration-driven dispatcher: full mode uses the fixed-length path
/// when a nonzero `mask_length` is set and the natural length otherwise;
/// partial mode uses the partial path with the configured windows.
pub fn mask_value(value: &str, options: &ShelterMaskOptions) -> (r: String)
    ensures
        r@ == mask_value_spec(value@, *options),
{
    match options.mode {
        ShelterMaskMode::Full => mask_fixed(value, options.mask_char, options.mask_length),
        ShelterMaskMode::Partial => mask_partial(
            value,
            options.mask_char,
            options.show_start,
            options.show_end,
            options.min_mask,
        ),
    }
}

} // verus!
