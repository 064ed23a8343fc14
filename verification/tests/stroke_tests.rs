use cardboard::model::stroke::DashPattern;
use cardboard::model::stroke::StrokeError;

#[test]
fn it_recognizes_simple_dotted_pattern() {
    let test_pattern: DashPattern = DashPattern::from_str("dotted").unwrap();

    assert_eq!(test_pattern, DashPattern::Dashed(vec![1, 1]));
}

#[test]
fn it_recognizes_simple_dashed_pattern() {
    let test_pattern: DashPattern = DashPattern::from_str("dashed").unwrap();

    assert_eq!(test_pattern, DashPattern::Dashed(vec![3, 1]));
}

#[test]
fn it_parses_a_complex_pattern() {
    let test_pattern: DashPattern = DashPattern::from_str("---   .-.  ... -. .    ").unwrap();

    assert_eq!(
        test_pattern,
        //   ---  [ ][ ][ ]  .-.  [ ][ ]  ...  [ ]  -.  [ ]  .  [ ][ ][ ][ ]
        DashPattern::Dashed(vec![9, 3, 5, 2, 3, 1, 4, 1, 1, 4])
    );
}

#[test]
fn it_complains_about_invalid_input() {
    let test_pattern = DashPattern::from_str("not a dash pattern");

    assert!(test_pattern.is_err())
}

#[test]
fn invalid_character_reports_its_offset() {
    match DashPattern::from_str("..x.") {
        Err(StrokeError::InvalidCharacter { character, dash_spec, offset }) => {
            assert_eq!(character, 'x');
            assert_eq!(dash_spec, "..x.".to_string());
            assert_eq!(offset, 2);
        },
        _ => panic!("expected an invalid-character error"),
    }
}

#[test]
fn empty_pattern_is_one_zero_segment() {
    assert_eq!(DashPattern::from_str("").unwrap(), DashPattern::Dashed(vec![0]));
}

#[test]
fn default_pattern_is_solid() {
    let d: DashPattern = Default::default();
    assert_eq!(d, DashPattern::Solid);
}
