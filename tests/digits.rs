use tetris_lib::digits::Digits;
use tetris_lib::figure::Figure;

#[test]
fn test_digit_one_pattern() {
    let digits = Digits::standard();
    let one = &digits.0[1];
    assert_eq!(one.get_bit(0, 0), false);
    assert_eq!(one.get_bit(1, 0), true);
    assert_eq!(one.get_bit(2, 0), false);

    assert_eq!(one.get_bit(0, 1), true);
    assert_eq!(one.get_bit(1, 1), true);
    assert_eq!(one.get_bit(2, 1), false);

    assert_eq!(one.get_bit(0, 2), false);
    assert_eq!(one.get_bit(1, 2), true);
    assert_eq!(one.get_bit(2, 2), false);

    assert_eq!(one.get_bit(2, 3), false);
    assert_eq!(one.get_bit(1, 3), true);
    assert_eq!(one.get_bit(0, 3), false);

    assert_eq!(one.get_bit(2, 4), false);
    assert_eq!(one.get_bit(1, 4), true);
    assert_eq!(one.get_bit(0, 4), false);
}

#[test]
fn test_all_digits_dimensions() {
    let digits = Digits::standard();
    for (i, digit) in digits.0.iter().enumerate() {
        assert_eq!(digit.width(), 3, "Digit {} has wrong width", i);
        assert_eq!(digit.height(), 5, "Digit {} has wrong height", i);
    }
}

#[test]
fn test_digit_wrapping() {
    let digits = Digits::standard();
    assert_eq!(digits.wrapping_at(10), digits.0[0]);
    assert_eq!(digits.wrapping_at(11), digits.0[1]);
    assert_eq!(digits.wrapping_at(9), digits.0[9]);
}

#[test]
fn test_digit_patterns() {
    let digits = Digits::standard();
    for (i, digit) in digits.0.iter().enumerate() {
        let mut has_pixels = false;
        for y in 0..digit.height() {
            for x in 0..digit.width() {
                if digit.get_bit(x, y) {
                    has_pixels = true;
                    break;
                }
            }
        }
        assert!(has_pixels, "Digit {} has no pixels set", i);
    }
}

#[test]
fn rotated() {
    // # #
    // # #
    // ###
    //   #
    //   #
    let four = Figure {
        data: 0b101_101_111_001_001,
        wh: 3 << 4 | 5,
    };

    //   ###
    //   #
    // #####
    let rotated_four = Figure {
        data: 0b00111_00100_11111,
        wh: 5 << 4 | 3,
    };

    let rotated = four.rotate();
    assert_eq!(
        rotated.data,
        rotated_four.data,
        "\nEXPECTED:\n{}'{}'\nACTUAL:\n'{}'",
        rotated_four.str(),
        rotated_four.data,
        rotated.str(),
    );
    assert_eq!(rotated.wh, rotated_four.wh);
}

#[test]
fn digit_at_matches_table() {
    let digits = Digits::standard();
    assert_eq!(digits.at(7), digits.0[7]);
    assert_eq!(digits.0[7].data, 0b111_001_001_001_001);
}
