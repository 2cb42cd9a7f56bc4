use tax2go_search::auth::{AuthHeader, CurrentUser, UNAUTHORIZED};
use uuid::Uuid;

#[test]
fn test_current_user_extractor() {
    let user_id = Uuid::new_v4();
    let header = AuthHeader::Text(user_id.to_string());

    let current_user = CurrentUser::from_request_parts(&header).unwrap();

    assert_eq!(current_user.user_id, user_id.as_u128());
}

#[test]
fn test_current_user_missing_header() {
    let result = CurrentUser::from_request_parts(&AuthHeader::Missing);

    assert!(result.is_err());
}

#[test]
fn test_current_user_invalid_uuid() {
    let header = AuthHeader::Text("not-a-uuid".to_string());

    let result = CurrentUser::from_request_parts(&header);

    assert!(result.is_err());
}

#[test]
fn test_missing_auth() {
    let error = CurrentUser::from_request_parts(&AuthHeader::Missing).unwrap_err();
    assert_eq!(error.status_code(), UNAUTHORIZED);
    assert_eq!(error.status_code(), 401);
    assert_eq!(error.message, "X-User-Id header is required");
}

#[test]
fn each_failure_has_its_kind_and_words() {
    let unreadable = CurrentUser::from_request_parts(&AuthHeader::Unreadable).unwrap_err();
    assert_eq!(unreadable.error, "invalid_auth");
    assert_eq!(unreadable.message, "X-User-Id header contains invalid characters");
    let no_uuid =
        CurrentUser::from_request_parts(&AuthHeader::Text("1234".to_string())).unwrap_err();
    assert_eq!(no_uuid.error, "invalid_auth");
    assert_eq!(no_uuid.message, "X-User-Id must be a valid UUID");
}

#[test]
fn a_uuid_is_read_in_more_than_one_form() {
    let value = 0x11111111_1111_1111_1111_111111111111u128;
    let hyphenated = AuthHeader::Text("11111111-1111-1111-1111-111111111111".to_string());
    assert_eq!(CurrentUser::from_request_parts(&hyphenated).unwrap().user_id, value);
    let simple = AuthHeader::Text("11111111111111111111111111111111".to_string());
    assert_eq!(CurrentUser::from_request_parts(&simple).unwrap().user_id, value);
    let other = AuthHeader::Text("01234567-89AB-cdef-fedc-ba9876543210".to_string());
    assert_eq!(
        CurrentUser::from_request_parts(&other).unwrap().user_id,
        0x0123456789abcdef_fedcba9876543210u128
    );
}

#[test]
fn the_outcome_of_parsing_decides() {
    let header = AuthHeader::Text("whatever".to_string());
    assert_eq!(CurrentUser::from_header(&header, Some(7)).unwrap().user_id, 7);
    assert!(CurrentUser::from_header(&header, None).is_err());
    assert_eq!(
        CurrentUser::from_header(&AuthHeader::Missing, Some(7)).unwrap_err().error,
        "missing_auth"
    );
    assert_eq!(CurrentUser::new(9).user_id, 9);
}
