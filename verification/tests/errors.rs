use debugfs::error::{from_err_ptr, Error, EBADF, EINVAL, ENOMEM};

#[test]
fn errno_in_range_is_kept() {
    assert_eq!(Error::from_errno(-9).to_errno(), EBADF);
    assert_eq!(Error::from_errno(-1).to_errno(), -1);
    assert_eq!(Error::from_errno(-4095).to_errno(), -4095);
}

#[test]
fn errno_out_of_range_is_einval() {
    assert_eq!(Error::from_errno(0).to_errno(), EINVAL);
    assert_eq!(Error::from_errno(9).to_errno(), EINVAL);
    assert_eq!(Error::from_errno(-4096).to_errno(), EINVAL);
    assert_eq!(Error::from_errno(i32::MIN).to_errno(), EINVAL);
}

#[test]
fn pointers_below_the_error_range_are_pointers() {
    assert_eq!(from_err_ptr(0), Ok(0));
    assert_eq!(from_err_ptr(0x1000), Ok(0x1000));
    assert_eq!(from_err_ptr(usize::MAX - 4095), Ok(usize::MAX - 4095));
}

#[test]
fn error_pointers_hold_the_error() {
    assert_eq!(from_err_ptr(usize::MAX), Err(Error::from_errno(-1)));
    assert_eq!(from_err_ptr(usize::MAX - 11), Err(Error::from_errno(ENOMEM)));
    assert_eq!(from_err_ptr(usize::MAX - 4094), Err(Error::from_errno(-4095)));
}

#[test]
fn every_errno_has_an_error_pointer() {
    for errno in -4095i32..0 {
        let ptr = errno as isize as usize;
        assert_eq!(from_err_ptr(ptr), Err(Error::from_errno(errno)));
    }
}

#[test]
fn errors_with_the_same_number_are_equal() {
    assert!(Error::from_errno(-22) == Error::from_errno(1));
    assert!(Error::from_errno(-22) != Error::from_errno(-12));
}
