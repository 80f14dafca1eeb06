use sb::text_conversion::{alternate_case, convert_to_sb_text, count_capital_letters, CaseForms};

fn reversed(s: &str) -> String {
    s.chars().rev().collect()
}

#[test]
fn test_convert_to_sb_text() {
    let str = "Hello, World!";
    let sb_text = convert_to_sb_text(str);
    assert_eq!(sb_text, "HeLlO, wOrLd!");
}

#[test]
fn empty_input_gives_empty_output() {
    assert_eq!(convert_to_sb_text(""), "");
}

#[test]
fn digits_pass_through() {
    assert_eq!(convert_to_sb_text("123"), "123");
}

#[test]
fn two_letters_start_upper() {
    assert_eq!(convert_to_sb_text("ab"), "Ab");
}

#[test]
fn upper_input_is_lowered_on_odd_slots() {
    assert_eq!(convert_to_sb_text("ABCD"), "AbCd");
}

#[test]
fn non_letters_do_not_take_a_slot() {
    assert_eq!(convert_to_sb_text("a b-c1d"), "A b-C1d");
}

#[test]
fn same_input_gives_same_output() {
    let input = "Some text, with 42 things!";
    assert_eq!(convert_to_sb_text(input), convert_to_sb_text(input));
}

#[test]
fn length_in_chars_is_kept() {
    let input = "straße, été!";
    let out = convert_to_sb_text(input);
    assert_eq!(out.chars().count(), input.chars().count());
    assert_eq!(out, "StRaSe, ÉtÉ!");
}

#[test]
fn letters_alternate_in_case() {
    let out = convert_to_sb_text("the quick, brown fox; jumps 0ver");
    let letters: Vec<char> = out.chars().filter(|c| c.is_alphabetic()).collect();
    for k in 0..letters.len() {
        assert_eq!(letters[k].is_uppercase(), k % 2 == 0);
    }
}

#[test]
fn non_letters_stay_in_place() {
    let input = "x1, y2; z3!";
    let out: Vec<char> = convert_to_sb_text(input).chars().collect();
    for (i, c) in input.chars().enumerate() {
        if !c.is_alphabetic() {
            assert_eq!(out[i], c);
        }
    }
}

#[test]
fn reversal_keeps_capital_count() {
    let input = "Hello, World! abc";
    let forward = convert_to_sb_text(input);
    let backward = convert_to_sb_text(&reversed(input));
    assert_eq!(count_capital_letters(&forward), 7);
    assert_eq!(count_capital_letters(&forward), count_capital_letters(&backward));
}

#[test]
fn letter_without_upper_form_breaks_reversal_count() {
    let input = "\u{aa}a";
    let forward = convert_to_sb_text(input);
    let backward = convert_to_sb_text(&reversed(input));
    assert_eq!(count_capital_letters(&forward), 0);
    assert_eq!(count_capital_letters(&backward), 1);
}

#[test]
fn capital_letters_are_counted() {
    assert_eq!(count_capital_letters("HeLlO, wOrLd!"), 5);
    assert_eq!(count_capital_letters(""), 0);
    assert_eq!(count_capital_letters("123 abc"), 0);
}

#[test]
fn alternate_case_uses_given_forms() {
    let forms = vec![
        CaseForms { original: 'a', alphabetic: true, upper: 'A', lower: 'a' },
        CaseForms { original: '!', alphabetic: false, upper: '!', lower: '!' },
        CaseForms { original: 'b', alphabetic: true, upper: 'B', lower: 'b' },
        CaseForms { original: 'C', alphabetic: true, upper: 'C', lower: 'c' },
    ];
    assert_eq!(alternate_case(&forms), "A!bC");
}

#[test]
fn alternate_case_of_nothing_is_empty() {
    assert_eq!(alternate_case(&Vec::new()), "");
}
