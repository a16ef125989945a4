use objview::index::{find_field_end, read_unsigned};
use objview::number::{digit, lower, number, scan_digits, sign};

const SAMPLES: [&str; 76] = [
    "", " ", "0", "1", "-1", "+1", "--1", "+-1", "-", "+", "1.", ".1", ".", "-.", "+.5", "1.5",
    "1..5", "1.2.3", "1e5", "1E5", "1e", "1e+", "1e-", "1e+5", "1e-5", "1e5.", "1e5e5", "e5",
    ".e5", "1.e5", ".5e5", "-.5E-5", "inf", "INF", "Inf", "-inf", "+inf", "infinity", "Infinity",
    "INFINITY", "-iNfInItY", "infinit", "infinityy", "in", "nan", "NaN", "NAN", "-nan", "+NaN",
    "nana", "na", "abc", "1a", "a1", "0x10", "1_000", "1,5", "1 ", " 1", "00012", "0.0000001",
    "123456789012345678901234567890", "1e999999999999", "1e-999999999999", "-0", "+0.0", "1f32",
    "1.0f", "\u{661}", "1\u{e9}", "1/2", "1e5 ", "i", "n", "1ee5", "1e++5",
];

#[test]
fn numeric_literals_are_those_that_parse_as_floats() {
    for s in SAMPLES.iter() {
        assert_eq!(number(s.as_bytes()), s.parse::<f32>().is_ok(), "{:?}", s);
        assert_eq!(number(s.as_bytes()), s.parse::<f64>().is_ok(), "{:?}", s);
    }
}

#[test]
fn numeric_literal_examples() {
    assert!(number("1.0".as_bytes()));
    assert!(number("-12.5e-3".as_bytes()));
    assert!(number("+.5".as_bytes()));
    assert!(number("7.".as_bytes()));
    assert!(number("Infinity".as_bytes()));
    assert!(!number("abc".as_bytes()));
    assert!(!number("".as_bytes()));
    assert!(!number(".".as_bytes()));
    assert!(!number("1e".as_bytes()));
    assert!(!number("1 ".as_bytes()));
}

#[test]
fn unsigned_fields_are_those_that_parse_as_integers() {
    for s in SAMPLES.iter() {
        let ours = read_unsigned(s.as_bytes(), 65535);
        let theirs = s.parse::<u16>().ok().map(|n| n as u64);
        assert_eq!(ours, theirs, "{:?}", s);
        let ours_wide = read_unsigned(s.as_bytes(), u64::MAX);
        let theirs_wide = s.parse::<u64>().ok();
        assert_eq!(ours_wide, theirs_wide, "{:?}", s);
    }
}

#[test]
fn unsigned_fields_at_their_limits() {
    assert_eq!(read_unsigned("65535".as_bytes(), 65535), Some(65535));
    assert_eq!(read_unsigned("65536".as_bytes(), 65535), None);
    assert_eq!(read_unsigned("0065535".as_bytes(), 65535), Some(65535));
    assert_eq!(read_unsigned("+0".as_bytes(), 0), Some(0));
    assert_eq!(read_unsigned("1".as_bytes(), 0), None);
    assert_eq!(read_unsigned("9".as_bytes(), 9), Some(9));
    assert_eq!(read_unsigned("10".as_bytes(), 9), None);
    assert_eq!(read_unsigned("18446744073709551615".as_bytes(), u64::MAX), Some(u64::MAX));
    assert_eq!(read_unsigned("18446744073709551616".as_bytes(), u64::MAX), None);
    assert_eq!(read_unsigned("99999999999999999999999".as_bytes(), u64::MAX), None);
    assert_eq!(read_unsigned("".as_bytes(), 65535), None);
    assert_eq!(read_unsigned("+".as_bytes(), 65535), None);
    assert_eq!(read_unsigned("-0".as_bytes(), 65535), None);
    assert_eq!(read_unsigned("12a".as_bytes(), 65535), None);
    assert_eq!(read_unsigned("999999a".as_bytes(), 65535), None);
}

#[test]
fn fields_end_at_a_slash() {
    assert_eq!(find_field_end("12/3/4".as_bytes(), 0), 2);
    assert_eq!(find_field_end("12/3/4".as_bytes(), 3), 4);
    assert_eq!(find_field_end("12/3/4".as_bytes(), 5), 6);
    assert_eq!(find_field_end("12//4".as_bytes(), 3), 3);
    assert_eq!(find_field_end("12".as_bytes(), 0), 2);
    assert_eq!(find_field_end("".as_bytes(), 0), 0);
    assert_eq!(find_field_end("/".as_bytes(), 0), 0);
    assert_eq!(find_field_end("/".as_bytes(), 1), 1);
}

#[test]
fn bytes_are_told_apart() {
    for b in 0u8..=255 {
        assert_eq!(digit(b), (b as char).is_ascii_digit());
        assert_eq!(sign(b), b == b'+' || b == b'-');
        assert_eq!(lower(b), b.to_ascii_lowercase());
    }
}

#[test]
fn digits_are_passed_over() {
    assert_eq!(scan_digits("123a5".as_bytes(), 0), 3);
    assert_eq!(scan_digits("123a5".as_bytes(), 3), 3);
    assert_eq!(scan_digits("123a5".as_bytes(), 4), 5);
    assert_eq!(scan_digits("123a5".as_bytes(), 5), 5);
    assert_eq!(scan_digits("".as_bytes(), 0), 0);
}

#[test]
fn decimal_numbers_are_made_of_their_parts() {
    let wholes = ["", "0", "12", "007"];
    let fractions = ["", "5", "250"];
    let exponents = ["", "e0", "E12", "e+3", "E-45"];
    let signs = ["", "+", "-"];
    for whole in wholes.iter() {
        for point in [false, true] {
            for fraction in fractions.iter() {
                for exponent in exponents.iter() {
                    for sign in signs.iter() {
                        let parts_fit = (point || fraction.is_empty())
                            && whole.len() + fraction.len() > 0;
                        if !parts_fit {
                            continue;
                        }
                        let dot = if point { "." } else { "" };
                        let text = format!("{sign}{whole}{dot}{fraction}{exponent}");
                        assert!(number(text.as_bytes()), "{:?}", text);
                        assert!(text.parse::<f32>().is_ok(), "{:?}", text);
                    }
                }
            }
        }
    }
}

fn next_random(state: &mut u64) -> u64 {
    *state = state.wrapping_mul(6364136223846793005).wrapping_add(1442695040888963407);
    *state >> 33
}

fn random_text(state: &mut u64, alphabet: &[u8], longest: u64) -> String {
    let length = next_random(state) % (longest + 1);
    let mut text = String::new();
    for _ in 0..length {
        let pick = next_random(state) as usize % alphabet.len();
        text.push(alphabet[pick] as char);
    }
    text
}

#[test]
fn numeric_literals_agree_with_float_parsing_on_many_texts() {
    let mut state: u64 = 2024;
    let mut accepted = 0;
    for round in 0..300_000 {
        let alphabet: &[u8] = if round % 3 == 0 {
            b"0123456789+-.eE"
        } else if round % 3 == 1 {
            b"0159+-.eEinfatyINFATY"
        } else {
            b"09.eE-+nNaAiIfFtTyY _x/"
        };
        let text = random_text(&mut state, alphabet, 9);
        let ours = number(text.as_bytes());
        assert_eq!(ours, text.parse::<f32>().is_ok(), "{:?}", text);
        if ours {
            accepted += 1;
        }
    }
    assert!(accepted > 1000);
}

#[test]
fn unsigned_fields_agree_with_integer_parsing_on_many_texts() {
    let mut state: u64 = 77;
    let mut accepted = 0;
    for round in 0..300_000 {
        let alphabet: &[u8] = if round % 2 == 0 { b"0123456789" } else { b"0123456789+- a" };
        let longest = if round % 4 < 2 { 6 } else { 22 };
        let text = random_text(&mut state, alphabet, longest);
        let narrow = read_unsigned(text.as_bytes(), 65535);
        assert_eq!(narrow, text.parse::<u16>().ok().map(|n| n as u64), "{:?}", text);
        let wide = read_unsigned(text.as_bytes(), u64::MAX);
        assert_eq!(wide, text.parse::<u64>().ok(), "{:?}", text);
        let native = read_unsigned(text.as_bytes(), usize::MAX as u64);
        assert_eq!(native, text.parse::<usize>().ok().map(|n| n as u64), "{:?}", text);
        if narrow.is_some() {
            accepted += 1;
        }
    }
    assert!(accepted > 1000);
}
