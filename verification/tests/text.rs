use vvrd::rounding::{same_single, scale_side, single_bits};
use vvrd::text::{
    decimal_len, padded_decimal_text, push_decimal, push_repeated, take_chars, trim_text, Margin,
};

#[test]
fn numbers_are_written_in_decimal() {
    let mut text = "n=".to_owned();
    push_decimal(&mut text, u64::MAX);
    push_repeated(&mut text, '!', 2);
    assert_eq!(text, "n=18446744073709551615!!");
    assert_eq!(padded_decimal_text(7, 3), "007");
    assert_eq!(padded_decimal_text(1234, 3), "1234");
    assert_eq!((decimal_len(0), decimal_len(9), decimal_len(10), decimal_len(999)), (1, 1, 2, 3));
}

#[test]
fn texts_are_cut_by_characters() {
    assert_eq!(take_chars("größer", 4), "größ");
    assert_eq!(take_chars("ab", 4), "ab");
}

#[test]
fn white_space_is_what_the_standard_library_takes_for_it() {
    for code in 0..=0x10_ffffu32 {
        if let Some(character) = char::from_u32(code) {
            assert_eq!(Margin::Blank.holds(character), character.is_whitespace());
        }
    }
}

#[test]
fn trimming_keeps_the_middle() {
    assert_eq!(trim_text(" \u{a0}a b\t\n", Margin::Blank), "a b");
    assert_eq!(trim_text("-_.x-y._-", Margin::Joint), "x-y");
    assert_eq!(trim_text("...", Margin::Joint), "");
}

#[test]
fn single_encodings_match_the_hardware() {
    let samples = [
        0u32, 1, 2, 3, 7, 800, 16_777_215, 16_777_216, 16_777_217, 16_777_218, 16_777_219,
        33_554_433, 33_554_434, 33_554_435, 123_456_789, u32::MAX - 128, u32::MAX - 127, u32::MAX,
    ];
    for value in samples {
        assert_eq!(single_bits(value), (value as f32).to_bits());
    }
}

#[test]
fn single_comparison_matches_the_hardware() {
    let samples = [
        0.0f32, -0.0, 1.0, -1.0, 11.0, f32::INFINITY, f32::NEG_INFINITY, f32::NAN, -f32::NAN,
        f32::MIN_POSITIVE, 1e-45,
    ];
    for a in samples {
        for b in samples {
            assert_eq!(same_single(a.to_bits(), b.to_bits()), a == b);
        }
    }
}

#[test]
fn scaled_sides_match_the_hardware() {
    let sides = [1u32, 2, 3, 5, 7, 10, 33, 97, 100, 333, 640, 799, 800, 1023, 1920, 4096];
    for side in sides {
        for num in sides {
            for den in sides {
                let scale = f64::from(num) / f64::from(den);
                let limit = 3000u32;
                let expected = ((f64::from(side) * scale).round() as u32).clamp(1, limit);
                assert_eq!(scale_side(side, num, den, limit), expected);
            }
        }
    }
}
