use roi_pipeline::error::exit_code;
use roi_pipeline::error::ErrorKind;

#[test]
fn fatal_kinds_end_the_run() {
    assert!(ErrorKind::IoError.is_fatal());
    assert!(ErrorKind::StreamNotFound.is_fatal());
    assert!(ErrorKind::CodecError.is_fatal());
    assert!(ErrorKind::NoBoxes.is_fatal());
}

#[test]
fn bad_lines_and_mismatches_do_not_end_the_run() {
    assert!(!ErrorKind::MalformedBoxLine.is_fatal());
    assert!(!ErrorKind::DimensionMismatch.is_fatal());
}

#[test]
fn exit_code_is_zero_on_success_only() {
    assert_eq!(exit_code(&Ok(())), 0);
    assert_ne!(exit_code(&Err(ErrorKind::IoError)), 0);
    assert_ne!(exit_code(&Err(ErrorKind::StreamNotFound)), 0);
    assert_ne!(exit_code(&Err(ErrorKind::CodecError)), 0);
    assert_ne!(exit_code(&Err(ErrorKind::NoBoxes)), 0);
}

#[test]
fn exit_code_of_a_failure_that_is_not_fatal_is_zero() {
    assert_eq!(exit_code(&Err(ErrorKind::MalformedBoxLine)), 0);
    assert_eq!(exit_code(&Err(ErrorKind::DimensionMismatch)), 0);
}

#[test]
fn kinds_are_distinct() {
    let kinds = [
        ErrorKind::IoError,
        ErrorKind::StreamNotFound,
        ErrorKind::CodecError,
        ErrorKind::NoBoxes,
        ErrorKind::MalformedBoxLine,
        ErrorKind::DimensionMismatch,
    ];
    for (i, a) in kinds.iter().enumerate() {
        for (j, b) in kinds.iter().enumerate() {
            assert_eq!(a == b, i == j);
        }
    }
}
