use catr::config::{ArgError, Config};

#[test]
fn conflicting_flags_always_rejected() {
    let r = Config::new(Vec::new(), true, true);
    assert_eq!(r.unwrap_err(), ArgError::ConflictingNumberFlags);

    let r = Config::new(vec!["a.txt".to_string(), "b.txt".to_string()], true, true);
    assert_eq!(r.unwrap_err(), ArgError::ConflictingNumberFlags);
}

#[test]
fn conflict_error_has_a_message() {
    let e = Config::new(Vec::new(), true, true).unwrap_err();
    assert_eq!(
        e.message(),
        "the options to number all lines and to number only nonblank lines cannot be combined"
    );
}

#[test]
fn default_input_is_stdin() {
    let c = Config::new(Vec::new(), false, false).unwrap();
    assert_eq!(c.files, vec!["-".to_string()]);
    assert!(!c.number_lines);
    assert!(!c.number_nonblank_lines);
}

#[test]
fn files_kept_in_order() {
    let names = vec!["a.txt".to_string(), "-".to_string(), "b.txt".to_string()];
    let c = Config::new(names.clone(), false, false).unwrap();
    assert_eq!(c.files, names);
}

#[test]
fn single_numbering_flag_accepted() {
    let c = Config::new(vec!["a.txt".to_string()], true, false).unwrap();
    assert!(c.number_lines);
    assert!(!c.number_nonblank_lines);

    let c = Config::new(vec!["a.txt".to_string()], false, true).unwrap();
    assert!(!c.number_lines);
    assert!(c.number_nonblank_lines);
}
