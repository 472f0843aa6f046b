use scoring::isbn::{calculate_check_digit, Error, Isbn, IsbnError};

#[test]
fn can_correctly_calculate_check_digits() {
    let cases = [
        ([9_u8, 7, 8, 1, 8, 6, 1, 9, 7, 8, 7, 6], 9_u8),
        ([9_u8, 7, 8, 3, 1, 6, 1, 4, 8, 4, 1, 0], 0_u8),
    ];

    for (case, check) in cases.iter() {
        let actual = calculate_check_digit(case);
        println!("{:?} -> {}?  {}", &case, check, actual);
        assert_eq!(calculate_check_digit(case), *check)
    }
}

#[test]
fn rust_in_action() {
    let _: Isbn = Isbn::from_str("978-3-16-148410-0").unwrap();
}

#[test]
fn rust_in_action_is_invalid() {
    let result: Result<Isbn, Error> = Isbn::from_str("978-3-16-148410-1");
    assert!(result.is_err());
    assert_eq!(result.unwrap_err().error, IsbnError::InvalidCheckDigit);
}

#[test]
fn rust_in_action_is_invalid_length() {
    let result: Result<Isbn, Error> = Isbn::from_str("978-3-16-148410");
    assert!(result.is_err());
    assert_eq!(result.unwrap_err().error, IsbnError::InvalidLength);
}

#[test]
fn non_digit_characters_are_ignored() {
    let spaced = Isbn::from_str("978 3 16 148410 0").unwrap();
    assert_eq!(spaced.digits, vec![9, 7, 8, 3, 1, 6, 1, 4, 8, 4, 1, 0, 0]);
    assert_eq!(spaced.raw, "978 3 16 148410 0");

    let bare = Isbn::from_str("9783161484100").unwrap();
    assert_eq!(bare.digits, spaced.digits);
}

#[test]
fn too_many_digits_is_invalid_length() {
    let result = Isbn::from_str("978-3-16-148410-00");
    assert_eq!(result.unwrap_err().error, IsbnError::InvalidLength);
}

#[test]
fn check_digit_of_no_digits_is_zero() {
    assert_eq!(calculate_check_digit(&[]), 0);
}

#[test]
fn check_digit_weights_alternate() {
    // 1*1 + 2*3 = 7, so the check digit is 3.
    assert_eq!(calculate_check_digit(&[1, 2]), 3);
    // 2*1 + 1*3 = 5, so the check digit is 5.
    assert_eq!(calculate_check_digit(&[2, 1]), 5);
    // A weighted sum on a multiple of 10 (5*1 + 5*3 = 20) owes a check
    // digit of 0.
    assert_eq!(calculate_check_digit(&[5, 5]), 0);
}

#[test]
fn error_messages_name_the_failure() {
    let length = Isbn::from_str("123").unwrap_err();
    assert_eq!(length.message(), "Invalid length");
    let check = Isbn::from_str("978-3-16-148410-1").unwrap_err();
    assert_eq!(check.message(), "Invalid check digit");
}
