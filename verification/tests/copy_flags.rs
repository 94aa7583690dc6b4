use uuid_convert::select_copy;
use uuid_convert::CopyChoice;

#[test]
fn both_copy_flags_are_a_usage_error() {
    assert!(select_copy(true, true).is_none());
}

#[test]
fn single_or_absent_flags_are_accepted() {
    assert_eq!(select_copy(true, false), Some(CopyChoice::Canonical));
    assert_eq!(select_copy(false, true), Some(CopyChoice::Base64));
    assert_eq!(select_copy(false, false), Some(CopyChoice::NoCopy));
}
