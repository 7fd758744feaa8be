use systemd_compat::is_main_pid;
use systemd_compat::properties::ActiveState;
use systemd_compat::properties::PropertyParseError;
use systemd_compat::properties::SystemDProperties;

#[test]
fn parses_state_and_property() {
    let p = SystemDProperties::parse("ActiveState=active\nMainPID=123\n").unwrap();
    assert!(matches!(p.state(), ActiveState::Active));
    assert_eq!(p.property("MainPID"), Some("123"));
}

#[test]
fn missing_active_state_is_reported() {
    let err = SystemDProperties::parse("MainPID=123\n").unwrap_err();
    assert!(matches!(err, PropertyParseError::MissingProperty("ActiveState")));
}

#[test]
fn line_without_delimiter_is_reported() {
    let err = SystemDProperties::parse("ActiveState=active\nbogus\n").unwrap_err();
    assert!(matches!(err, PropertyParseError::MissingDelimeter(ref l) if l == "bogus"));
}

#[test]
fn duplicate_keys_keep_the_last_value() {
    let p = SystemDProperties::parse("ActiveState=active\nFoo=1\nFoo=2\n").unwrap();
    assert_eq!(p.property("Foo"), Some("2"));
}

#[test]
fn unrecognized_state_word_is_reported() {
    let err = SystemDProperties::parse("ActiveState=bogus\n").unwrap_err();
    match err {
        PropertyParseError::State(e) => assert_eq!(e.0, "bogus"),
        other => panic!("expected a state parse error, got {other:?}"),
    }
}

#[test]
fn every_state_word_parses() {
    let cases = vec![
        ("active", ActiveState::Active),
        ("reloading", ActiveState::Reloading),
        ("inactive", ActiveState::Inactive),
        ("failed", ActiveState::Failed),
        ("activating", ActiveState::Activating),
        ("deactivating", ActiveState::Deactivating),
    ];
    for (word, want) in cases {
        let got = ActiveState::parse(word).unwrap();
        assert_eq!(format!("{got:?}"), format!("{want:?}"));
    }
}

#[test]
fn state_words_are_case_sensitive() {
    let err = ActiveState::parse("Active").unwrap_err();
    assert_eq!(err.0, "Active");
}

#[test]
fn value_keeps_text_after_first_delimiter() {
    let p = SystemDProperties::parse("ActiveState=active\nExecStart=/bin/x --flag=1\n").unwrap();
    assert_eq!(p.property("ExecStart"), Some("/bin/x --flag=1"));
}

#[test]
fn surrounding_whitespace_is_trimmed_per_line() {
    let p = SystemDProperties::parse("ActiveState=active \n MainPID=123\n").unwrap();
    assert!(matches!(p.state(), ActiveState::Active));
    assert_eq!(p.property("MainPID"), Some("123"));
}

#[test]
fn tab_padding_is_trimmed() {
    let p = SystemDProperties::parse("\tActiveState=active\t\n").unwrap();
    assert!(matches!(p.state(), ActiveState::Active));
}

#[test]
fn inner_whitespace_is_kept() {
    let p = SystemDProperties::parse("ActiveState=active\nFoo =bar\n").unwrap();
    assert_eq!(p.property("Foo "), Some("bar"));
    assert_eq!(p.property("Foo"), None);
}

#[test]
fn padded_unrecognized_state_is_still_reported() {
    let err = SystemDProperties::parse(" ActiveState=Active \n").unwrap_err();
    match err {
        PropertyParseError::State(e) => assert_eq!(e.0, "Active"),
        other => panic!("expected a state parse error, got {other:?}"),
    }
}

#[test]
fn delimiter_error_holds_the_untrimmed_line() {
    let err = SystemDProperties::parse("ActiveState=active\n bogus \n").unwrap_err();
    assert!(matches!(err, PropertyParseError::MissingDelimeter(ref l) if l == " bogus "));
}

#[test]
fn final_line_without_ending_keeps_its_carriage_return() {
    // `str::lines` removes a carriage return only where a line feed
    // followed it, so the reported line keeps the lone trailing one.
    let err = SystemDProperties::parse("ActiveState=active\nbogus\r").unwrap_err();
    assert!(matches!(err, PropertyParseError::MissingDelimeter(ref l) if l == "bogus\r"));
    let err = SystemDProperties::parse("ActiveState=active\nbogus\r\n").unwrap_err();
    assert!(matches!(err, PropertyParseError::MissingDelimeter(ref l) if l == "bogus"));
}

#[test]
fn carriage_returns_are_stripped() {
    let p = SystemDProperties::parse("ActiveState=active\r\nMainPID=9\r\n").unwrap();
    assert_eq!(p.property("MainPID"), Some("9"));
}

#[test]
fn final_line_ending_is_optional() {
    let p = SystemDProperties::parse("ActiveState=inactive").unwrap();
    assert!(matches!(p.state(), ActiveState::Inactive));
}

#[test]
fn absent_property_is_none() {
    let p = SystemDProperties::parse("ActiveState=active\n").unwrap();
    assert_eq!(p.property("MainPID"), None);
}

#[test]
fn main_pid_match_recognizes_the_process() {
    let p = SystemDProperties::parse("ActiveState=active\nMainPID=123\n").unwrap();
    assert!(is_main_pid(&p, 123));
    assert!(!is_main_pid(&p, 124));
}

#[test]
fn main_pid_absent_is_not_recognized() {
    let p = SystemDProperties::parse("ActiveState=active\n").unwrap();
    assert!(!is_main_pid(&p, 123));
}
