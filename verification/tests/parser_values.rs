use shot_profile::num::Num;
use shot_profile::parser::{
    nested_bracket_string_val, number_val, string_val, transition_val, TransitionType,
};
use shot_profile::Error;

fn n(mantissa: u64, scale: u32) -> Num {
    Num { mantissa, scale }
}

fn num_f64(v: Num) -> f64 {
    v.mantissa as f64 / 10f64.powi(v.scale as i32)
}

#[test]
fn test_number_val() {
    assert_eq!(number_val("8;", 0), Ok((1, n(8, 0))));
    assert_eq!(number_val("80;", 0), Ok((2, n(80, 0))));
    assert_eq!(number_val("8.;", 0), Ok((2, n(8, 0))));
    assert_eq!(number_val("8.0;", 0), Ok((3, n(80, 1))));
    assert_eq!(number_val(".8;", 0), Ok((2, n(8, 1))));
    assert_eq!(num_f64(n(8, 0)), 8.0f64);
    assert_eq!(num_f64(n(80, 1)), 8.0f64);
    assert_eq!(num_f64(n(8, 1)), 0.8f64);
}

#[test]
fn parser_test_number_val() {
    let s = "8;";
    let (p, v) = number_val(s, 0).unwrap();
    assert_eq!((&s[p..], num_f64(v)), (";", 8.0));
    let s = "80;";
    let (p, v) = number_val(s, 0).unwrap();
    assert_eq!((&s[p..], num_f64(v)), (";", 80.0));
    let s = "8.;";
    let (p, v) = number_val(s, 0).unwrap();
    assert_eq!((&s[p..], num_f64(v)), (";", 8.0));
    let s = "8.0;";
    let (p, v) = number_val(s, 0).unwrap();
    assert_eq!((&s[p..], num_f64(v)), (";", 8.0));
    let s = ".8;";
    let (p, v) = number_val(s, 0).unwrap();
    assert_eq!((&s[p..], num_f64(v)), (";", 0.8));
}

#[test]
fn test_number_val_trailing_digits_fall_back() {
    // A dotted numeral whose digits run to the end of the input falls back
    // to the plain-integer reading.
    let s = "25.00";
    let (p, v) = number_val(s, 0).unwrap();
    assert_eq!((&s[p..], v), (".00", n(25, 0)));
}

#[test]
fn test_number_val_integer_bound() {
    // The plain-integer fallback stops at 65535.
    assert_eq!(number_val("65535;", 0), Ok((5, n(65535, 0))));
    assert_eq!(number_val("65536;", 0), Err(Error::MalformedValue));
    assert_eq!(number_val("99999999999999999999;", 0), Err(Error::MalformedValue));
}

#[test]
fn test_number_val_mantissa_bound() {
    // A dotted numeral with more than nineteen digits cannot be held
    // exactly.
    assert_eq!(
        number_val("1.000000000000000000000;", 0),
        Err(Error::MalformedValue)
    );
    assert_eq!(number_val("123.4567890123456789;", 0), Ok((20, n(1234567890123456789, 16))));
}

#[test]
fn test_nested_bracket_string_val() {
    assert_eq!(
        nested_bracket_string_val("{} rest", 0),
        Ok((2, String::from("")))
    );
    assert_eq!(
        nested_bracket_string_val("{volume 150.0} rest", 0),
        Ok((14, String::from("volume 150.0")))
    );
    assert_eq!(
        nested_bracket_string_val("{{exit_if 0} {volume 150.0}} rest", 0),
        Ok((28, String::from("{exit_if 0} {volume 150.0}")))
    );
    assert_eq!(
        nested_bracket_string_val("{{exit_if 0} {volume 150.0 name {Hoge}}}", 0),
        Ok((40, String::from("{exit_if 0} {volume 150.0 name {Hoge}}")))
    );
    assert_eq!(
        nested_bracket_string_val("{{exit_if 0} {volume 150.0} unmatched", 0),
        Err(Error::UnterminatedString)
    );
}

#[test]
fn test_string_val() {
    assert_eq!(string_val("Fill ;", 0), Ok((4, String::from("Fill"))));
    assert_eq!(string_val("Fill\n;", 0), Ok((4, String::from("Fill"))));
    assert_eq!(
        string_val("{Pressure Up};", 0),
        Ok((13, String::from("Pressure Up")))
    );
    assert_eq!(
        string_val("{New\n\"Line\"\n\nSupported \n};", 0),
        Ok((25, String::from("New\n\"Line\"\n\nSupported \n")))
    );
    assert_eq!(
        string_val("{{exit_if 0 flow 5.0} {volume 200.0 name {Rust}}};", 0),
        Ok((49, String::from("{exit_if 0 flow 5.0} {volume 200.0 name {Rust}}")))
    );
}

#[test]
fn parser_test_string_val() {
    let s = "Fill ;";
    let (p, v) = string_val(s, 0).unwrap();
    assert_eq!((&s[p..], v.as_str()), (" ;", "Fill"));
    let s = "Fill\n;";
    let (p, v) = string_val(s, 0).unwrap();
    assert_eq!((&s[p..], v.as_str()), ("\n;", "Fill"));
    let s = "{Pressure Up};";
    let (p, v) = string_val(s, 0).unwrap();
    assert_eq!((&s[p..], v.as_str()), (";", "Pressure Up"));
    let s = "{New\n\"Line\"\n\nSupported \n};";
    let (p, v) = string_val(s, 0).unwrap();
    assert_eq!((&s[p..], v.as_str()), (";", "New\n\"Line\"\n\nSupported \n"));
}

#[test]
fn test_string_val_unterminated() {
    assert_eq!(string_val("{never closed", 0), Err(Error::UnterminatedString));
}

#[test]
fn test_transition_val() {
    assert_eq!(transition_val("fast;", 0), Ok((4, TransitionType::Fast)));
    assert_eq!(transition_val("smooth;", 0), Ok((6, TransitionType::Smooth)));
    assert_eq!(transition_val("slow;", 0), Err(Error::UnrecognizedTag));
}

#[test]
fn parser_test_transition_val() {
    let s = "fast;";
    let (p, v) = transition_val(s, 0).unwrap();
    assert_eq!((&s[p..], v), (";", TransitionType::Fast));
    let s = "smooth;";
    let (p, v) = transition_val(s, 0).unwrap();
    assert_eq!((&s[p..], v), (";", TransitionType::Smooth));
    assert!(transition_val("slow;", 0).is_err());
}

#[test]
fn test_num_add_exact() {
    let a = n(250, 1);
    let b = n(4, 0);
    assert_eq!(a.add(b), Ok(n(290, 1)));
    assert_eq!(num_f64(n(290, 1)), 29.0);
    // Addition never loses precision across scales.
    assert_eq!(n(1, 3).add(n(2, 0)), Ok(n(2001, 3)));
}
