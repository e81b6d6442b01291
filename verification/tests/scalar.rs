use prompt_stream::scalar::has_scalar_notation;
use prompt_stream::scalar::Scalar;

#[test]
fn real_values_are_recognised() {
    for text in [
        "0", "1", "0.5", "3.14", "-3.14", "+3.14", "2.5E10", "2.5e10", "2.5E-10", "2.5e+10", "5.",
        ".5", "-.5", "5.e3", "inf", "-inf", "+infinity", "Infinity", "INF", "NaN", "nan", "-nan",
        "007", "1e0",
    ] {
        assert!(has_scalar_notation(text), "{:?}", text);
    }
}

#[test]
fn other_texts_are_not_real_values() {
    for text in [
        "", " ", ".", "+", "-", "e", "e5", ".e5", "1e", "1e+", "1e-", "1e5.0", "1.2.3", "--1",
        "+-1", " 1", "1 ", "1_000", "0x10", "abc", "infinit", "infinityy", "na", "1,5", "½",
        "1e5e5", "+.", "in f",
    ] {
        assert!(!has_scalar_notation(text), "{:?}", text);
    }
}

#[test]
fn real_values_are_recognised_as_the_standard_library_reads_them() {
    let pieces = ["", "+", "-", "1", "23", ".", "e", "E", "inf", "nan", "infinity", " ", "x"];
    for a in pieces {
        for b in pieces {
            for c in pieces {
                for d in pieces {
                    let text = format!("{}{}{}{}", a, b, c, d);
                    assert_eq!(has_scalar_notation(&text), text.parse::<f32>().is_ok(), "{:?}", text);
                }
            }
        }
    }
}

#[test]
fn a_scalar_keeps_its_notation() {
    let scalar = Scalar::parse("0.5").unwrap();
    assert_eq!(scalar.as_str(), "0.5");
    assert_eq!(scalar.as_str().parse::<f32>().unwrap(), 0.5);
    let copy = scalar.clone();
    assert_eq!(copy, scalar);
    assert_eq!(Scalar::parse("1E3").unwrap().as_str(), "1E3");
}

#[test]
fn a_scalar_is_made_of_real_values_only() {
    assert_eq!(Scalar::parse("warm"), None);
    assert_eq!(Scalar::parse(""), None);
    assert_eq!(Scalar::parse("0.5 "), None);
}
