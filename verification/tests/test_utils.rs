use nexwick::model::branch_length::BranchLength;
use nexwick::parser::number::decimal_text;
use nexwick::parser::number::parse_unsigned;
use nexwick::parser::utils::escape_label;
use nexwick::parser::utils::is_escaped;
use nexwick::parser::utils::is_single_quoted;
use nexwick::parser::utils::unescape_label;

#[test]
fn is_escaped_follows_quotes_and_special_characters() {
    assert_eq!(is_escaped("Pukeko"), true);
    assert_eq!(is_escaped("Pu[ke]ko"), false);
    assert_eq!(is_escaped("Australasian Swamphen"), false);
    assert_eq!(is_escaped("Australasian_Swamphen"), true);
    assert_eq!(is_escaped("'Australasian Swamphen'"), true);
    assert_eq!(is_escaped("'Baillon''s_Crake'"), true);
    assert_eq!(is_escaped("'Baillon's Crake'"), false);
}

#[test]
fn is_single_quoted_needs_two_quotes() {
    assert_eq!(is_single_quoted("Pukeko"), false);
    assert_eq!(is_single_quoted("'Swamp hen'"), true);
    assert_eq!(is_single_quoted("'Baillon''s_crake'"), true);
    assert_eq!(is_single_quoted("'Baillon's crake'"), true);
    assert_eq!(is_single_quoted("'"), false);
}

#[test]
fn escape_label_quotes_what_needs_it() {
    assert_eq!(escape_label("Pukeko"), "Pukeko");
    assert_eq!(escape_label("Pu[ke]ko"), "'Pu[ke]ko'");
    assert_eq!(escape_label("Australasian Swamphen"), "Australasian_Swamphen");
    assert_eq!(escape_label("Australasian_Swamphen"), "Australasian_Swamphen");
    assert_eq!(escape_label("'Australasian Swamphen'"), "'Australasian Swamphen'");
    assert_eq!(escape_label("'Baillon''s_Crake'"), "'Baillon''s_Crake'");
    assert_eq!(escape_label("'Baillon's Crake'"), "'Baillon''s Crake'");
    assert_eq!(escape_label("Wilson's petrel"), "'Wilson''s petrel'");
}

#[test]
fn unescape_label_undoes_quotes_and_underscores() {
    assert_eq!(unescape_label("Pukeko"), "Pukeko");
    assert_eq!(unescape_label("Pu[ke]ko"), "Pu[ke]ko");
    assert_eq!(unescape_label("Australasian_Swamphen"), "Australasian Swamphen");
    assert_eq!(unescape_label("'Australasian Swamphen'"), "Australasian Swamphen");
    assert_eq!(unescape_label("'Australasian_Swamphen'"), "Australasian Swamphen");
    assert_eq!(unescape_label("'Baillon''s_Crake'"), "Baillon's Crake");
}

#[test]
fn escape_then_unescape_gives_the_label_back() {
    for label in ["Pukeko", "Wilson's petrel", "a (b): c", "two words", "", "'"] {
        assert_eq!(unescape_label(&escape_label(label)), label);
    }
    let once = unescape_label(&escape_label("a_'b"));
    assert_eq!(once, "a 'b");
    assert_eq!(unescape_label(&escape_label(&once)), once);
    // a label that comes out in quotes does not settle
    let odd = unescape_label(&escape_label("''a''"));
    assert_eq!(odd, "'a'");
    assert_eq!(unescape_label(&escape_label(&odd)), "a");
}

#[test]
fn unsigned_numbers_are_read_as_std_reads_them() {
    for text in ["0", "7", "+12", "007", "", "+", "-1", "1 ", "18446744073709551615", "18446744073709551616", "1_0", "٣"] {
        assert_eq!(parse_unsigned(text), text.parse::<usize>().ok(), "{}", text);
    }
    assert_eq!(decimal_text(0), "0");
    assert_eq!(decimal_text(1203), "1203");
    assert_eq!(decimal_text(usize::MAX), usize::MAX.to_string());
}

#[test]
fn branch_lengths_are_decimal_numbers_not_below_zero() {
    for text in ["1", "1.0", ".5", "5.", "1e5", "1E-5", "+2.5e+3", "0.0", "-0", "-0.0e7"] {
        let length = BranchLength::parse(text).unwrap();
        assert_eq!(length.text(), text);
        assert!(text.parse::<f64>().unwrap() >= 0.0);
    }
    for text in ["", ".", "e5", "1e", "1e+", "abc", "1.2.3", "--1", "-1", "-0.001", "1-", "+", "1e5.5"] {
        assert!(BranchLength::parse(text).is_none(), "{}", text);
    }
    for text in ["", ".", "e5", "1e", "1e+", "abc", "1.2.3", "--1", "1-", "+", "1e5.5"] {
        assert!(text.parse::<f64>().is_err(), "{}", text);
    }
}
