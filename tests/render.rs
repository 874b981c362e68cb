use lcd::{
    as_rows, bits_to_vec, bottom_row, build_rows, char_map, decode, horizontal, middle_row,
    pad_input, row_with_separator, run, top_row, variable_height_row, vertical,
};

#[test]
fn test_bits_to_vec() {
    assert_eq!(
        [true, true, false, false, false, false, false, true],
        bits_to_vec(&0b11000001)
    );
}

#[test]
fn test_vertical_should_be_one_pipe_if_yes() {
    let expected = String::from("|");
    let actual = vertical(true);
    assert_eq!(expected, actual);
}

#[test]
fn test_vertical_should_be_one_space_if_no() {
    let expected = String::from(" ");
    let actual = vertical(false);
    assert_eq!(expected, actual);
}

#[test]
fn test_horizontal_should_b_n_underscores_if_yes() {
    let expected = String::from("__");
    let actual = horizontal(true, 2);
    assert_eq!(expected, actual);
}

#[test]
fn test_horizontal_should_b_n_spaces_if_no() {
    let expected = String::from("   ");
    let actual = horizontal(false, 3);
    assert_eq!(expected, actual);
}

#[test]
fn test_row_should_be_a_single_carriage_return_if_all_false() {
    let expected = String::from("\n");
    let actual = row_with_separator(&vec![false, false, false], 1, true);
    assert_eq!(expected, actual);
}

#[test]
fn test_every_first_and_last_char_in_each_tuple_is_vertical() {
    let expected = String::from("| || |\n");
    let actual = row_with_separator(&vec![true, false, true, true, false, true], 1, true);
    assert_eq!(expected, actual);
}

#[test]
fn test_every_middle_char_in_each_tuple_is_horizontal() {
    let expected = String::from(" _  _\n");
    let actual = row_with_separator(&vec![false, true, false, false, true, false], 1, true);
    assert_eq!(expected, actual);
}

#[test]
fn test_horizontal_separators_can_be_forced_to_no() {
    let expected = String::from("| |\n");
    let actual = row_with_separator(&vec![true, true, true], 1, false);
    assert_eq!(expected, actual);
}

#[test]
fn test_padded_string() {
    let expected = String::from("01234");
    let actual = pad_input(1234, 5);
    assert_eq!(expected, actual);
}

#[test]
fn test_no_excessive_padding_should_be_applied() {
    let expected = String::from("1234");
    let actual = pad_input(1234, 4);
    assert_eq!(expected, actual);
}

#[test]
fn test_negative_padding() {
    let expected = String::from("1234");
    let actual = pad_input(1234, 3);
    assert_eq!(expected, actual);
}

const SIMPLE: &str = r#"
 _     _  _     _  _  _  _  _
| |  | _| _||_||_ |_   ||_||_|
|_|  ||_  _|  | _||_|  ||_| _|
"#;

#[test]
fn test_simple_size() {
    assert_eq!(SIMPLE.trim_start_matches('\n'), &run(123456789, 10, 1, 1));
}

const DOUBLE: &str = r#"
 __      __  __      __  __  __  __  __
|  |   |   |   ||  ||   |      ||  ||  |
|  |   | __| __||__||__ |__    ||__||__|
|  |   ||      |   |   ||  |   ||  |   |
|__|   ||__  __|   | __||__|   ||__| __|
"#;

#[test]
fn test_double_size() {
    assert_eq!(DOUBLE.trim_start_matches('\n'), &run(123456789, 10, 2, 2));
}

#[test]
fn blank_triple_is_a_bare_newline_at_any_width() {
    for width in [0usize, 1, 2, 5] {
        for sep in [false, true] {
            assert_eq!("\n", row_with_separator(&[false, false, false], width, sep));
        }
    }
}

#[test]
fn separator_off_suppresses_every_middle_stroke() {
    assert_eq!("| |  |\n", row_with_separator(&[true, true, true, false, true, true], 1, false));
}

#[test]
fn trimming_keeps_leading_and_inner_spaces() {
    assert_eq!("   |\n", row_with_separator(&[false, false, true, false, false, false], 2, true));
}

#[test]
fn horizontal_of_width_zero_is_empty() {
    assert_eq!("", horizontal(true, 0));
}

#[test]
fn segment_table_masks() {
    let expected: [u8; 10] = [
        0b11011110, 0b00010010, 0b10111100, 0b10110110, 0b01110010, 0b11100110, 0b11101110,
        0b10010010, 0b11111110, 0b11110110,
    ];
    for (d, c) in "0123456789".chars().enumerate() {
        assert_eq!(expected[d], char_map(c));
    }
}

#[test]
fn bits_are_unpacked_most_significant_first() {
    assert_eq!(
        [true, true, false, true, true, true, true, false],
        bits_to_vec(&0b11011110)
    );
    assert_eq!([false; 8], bits_to_vec(&0));
}

#[test]
fn pad_zero_is_single_digit() {
    assert_eq!("0", pad_input(0, 0));
    assert_eq!("000", pad_input(0, 3));
    assert_eq!("18446744073709551615", pad_input(u64::MAX, 0));
}

#[test]
fn decode_within_length_equals_unpadded() {
    assert_eq!(decode(907, 0), decode(907, 3));
    assert_eq!(decode(907, 0), decode(907, 2));
    assert_eq!(vec![0b11110110, 0b11011110, 0b10010010], decode(907, 1));
}

#[test]
fn decode_beyond_length_pads_with_zero_masks() {
    let masks = decode(42, 5);
    assert_eq!(5, masks.len());
    assert_eq!(vec![0b11011110, 0b11011110, 0b11011110], masks[..3].to_vec());
    assert_eq!(decode(42, 0), masks[3..].to_vec());
}

#[test]
fn build_rows_interleaves_digit_by_digit() {
    let lines = (vec![true], vec![false, false, false], vec![true, true, true]);
    let (cap, upper, lower) =
        build_rows(lines, [false, true, false, true, true, false, true, true]);
    assert_eq!(vec![true, false], cap);
    assert_eq!(vec![false, false, false, true, false, true], upper);
    assert_eq!(vec![true, true, true, true, false, true], lower);
}

#[test]
fn as_rows_of_zero_and_one() {
    let (cap, upper, lower) = as_rows(1, 2);
    assert_eq!(vec![true, false], cap);
    assert_eq!(vec![true, false, true, false, false, true], upper);
    assert_eq!(vec![true, true, true, false, false, true], lower);
}

#[test]
fn top_row_draws_caps_only() {
    assert_eq!(" __      __\n", top_row(&[true, false, true], 2));
    assert_eq!(" _\n", top_row(&[true, false], 1));
    assert_eq!("\n", top_row(&[], 3));
}

#[test]
fn middle_and_bottom_rows() {
    assert_eq!("| |\n", middle_row(&[true, true, true], 1));
    assert_eq!("|_|\n", bottom_row(&[true, true, true], 1));
}

#[test]
fn variable_height_row_repeats_middle_lines() {
    let mut out = String::from("x\n");
    variable_height_row(&mut out, &[true, true, true], 1, 3);
    assert_eq!("x\n| |\n| |\n|_|\n", out);
    let mut single = String::new();
    variable_height_row(&mut single, &[false, true, true], 2, 1);
    assert_eq!(" __|\n", single);
}

#[test]
fn run_single_zero() {
    assert_eq!(" _\n| |\n|_|\n", run(0, 0, 1, 1));
}

#[test]
fn run_line_count_follows_height() {
    let text = run(123456789, 10, 1, 3);
    assert_eq!(7, text.lines().count());
    let text = run(123456789, 10, 2, 2);
    assert_eq!(5, text.lines().count());
}

#[test]
fn run_is_deterministic() {
    assert_eq!(run(8051, 6, 3, 2), run(8051, 6, 3, 2));
}
