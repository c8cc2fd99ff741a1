use snippets::compute::{compute_with_library_error, compute_with_local_error};
use snippets::errors::{convert_result, convert_results, LibraryError, MyError};

#[test]
fn my_error_stores_message() {
    let e = MyError::new("x");
    assert_eq!(e.description(), "x");
    assert_eq!(e.details, "x");
}

#[test]
fn library_error_stores_message() {
    let e = LibraryError::new("y");
    assert_eq!(e.description(), "y");
    assert_eq!(e.message, "y");
}

#[test]
fn from_preserves_message() {
    let converted = LibraryError::from(MyError::new("x"));
    assert_eq!(converted.message, "x");
}

#[test]
fn convert_result_keeps_outcome() {
    assert!(convert_result(Ok(())).is_ok());
    let r = convert_result(Err(MyError::new("boom")));
    match r {
        Ok(()) => panic!("a failure must stay a failure"),
        Err(e) => assert_eq!(e.message, "boom"),
    }
}

#[test]
fn convert_results_mixed_list() {
    let mixed: Vec<Result<(), MyError>> = vec![Ok(()), Err(MyError::new("Some error"))];
    let out = convert_results(mixed);
    assert_eq!(out.len(), 2);
    assert!(out[0].is_ok());
    match &out[1] {
        Ok(()) => panic!("the second element must be a failure"),
        Err(e) => assert_eq!(e.message, "Some error"),
    }
}

#[test]
fn convert_results_empty_list() {
    let out = convert_results(Vec::new());
    assert!(out.is_empty());
}

#[test]
fn local_error_flag_true() {
    let (s1, s2, r) = compute_with_local_error(true);
    assert_eq!(s1, 15);
    assert_eq!(s2, 15);
    match r {
        Ok(()) => panic!("the failure flag must produce an error"),
        Err(e) => assert_eq!(e.details, "the local computation was told to fail"),
    }
}

#[test]
fn local_error_flag_false() {
    let (s1, s2, r) = compute_with_local_error(false);
    assert_eq!(s1, 15);
    assert_eq!(s2 as f64, 15.0);
    assert!(r.is_ok());
}

#[test]
fn library_error_flag_true() {
    let (s1, s2, r) = compute_with_library_error(true);
    assert_eq!(s1, 15);
    assert_eq!(s2, 15);
    match r {
        Ok(_) => panic!("the failure flag must produce an error"),
        Err(e) => assert_eq!(e.message, "the library computation was told to fail"),
    }
}

#[test]
fn library_error_flag_false_converts_the_mix() {
    let (s1, s2, r) = compute_with_library_error(false);
    assert_eq!(s1, 15);
    assert_eq!(s2, 15);
    let items = r.expect("without the flag the computation must succeed");
    assert_eq!(items.len(), 2);
    assert!(items[0].is_ok());
    match &items[1] {
        Ok(()) => panic!("the second element must be a converted failure"),
        Err(e) => assert_eq!(e.message, "Some error"),
    }
}
