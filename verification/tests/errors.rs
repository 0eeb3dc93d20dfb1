use zktls::errors::{ZkErrorCode, ZktlsError};

#[test]
fn error_numbers_follow_declaration_order() {
    assert_eq!(ZkErrorCode::ParseAttestationData.number(), 1001);
    assert_eq!(ZkErrorCode::GetAttestorAddressFail.number(), 1002);
    assert_eq!(ZkErrorCode::VerifyAttestation.number(), 1003);
    assert_eq!(ZkErrorCode::InvalidRequestLength.number(), 1004);
    assert_eq!(ZkErrorCode::InvalidMessagesLength.number(), 1005);
    assert_eq!(ZkErrorCode::GetJsonValueFail.number(), 1006);
    assert_eq!(ZkErrorCode::InvalidJsonValueSize.number(), 1007);
    assert_eq!(ZkErrorCode::CannotFoundTimestamp.number(), 1008);
    assert_eq!(ZkErrorCode::ParseTimestampFailed.number(), 1009);
    assert_eq!(ZkErrorCode::InvalidRequestOrder.number(), 1010);
    assert_eq!(ZkErrorCode::InvalidRequestUrl.number(), 1011);
    assert_eq!(ZkErrorCode::DuplicateAccount.number(), 1012);
    assert_eq!(ZkErrorCode::NotSupportSource.number(), 1013);
    assert_eq!(ZkErrorCode::UpTimeNotEnough.number(), 1014);
    assert_eq!(ZkErrorCode::EmptyPlainResponse.number(), 1015);
    assert_eq!(ZkErrorCode::GetTaskIdFail.number(), 1016);
    assert_eq!(ZkErrorCode::GetReportTxHashFail.number(), 1017);
    assert_eq!(ZkErrorCode::InvalidAttestor.number(), 1018);
    assert_eq!(ZkErrorCode::MissingRequiredData.number(), 1019);
}

#[test]
fn new_error_keeps_code_and_message() {
    let e = ZktlsError::new(ZkErrorCode::VerifyAttestation, "bad signature".to_string());
    assert_eq!(e.icode(), 1003);
    assert_eq!(e.code(), ZkErrorCode::VerifyAttestation);
    assert_eq!(e.msg(), "bad signature");
}

#[test]
fn error_of_code_is_named_after_it() {
    let e = ZktlsError::of(ZkErrorCode::InvalidRequestUrl);
    assert_eq!(e.icode(), 1011);
    assert_eq!(e.msg(), "ZkErrorCode::InvalidRequestUrl");
    assert_eq!(ZkErrorCode::MissingRequiredData.name(), "ZkErrorCode::MissingRequiredData");
}

#[test]
fn error_text_names_code_and_message() {
    let e = ZktlsError::new(ZkErrorCode::GetJsonValueFail, "no path".to_string());
    assert_eq!(e.describe(), "ZktlsError(code: 1006, msg: no path)");
    let e = ZktlsError::of(ZkErrorCode::EmptyPlainResponse);
    assert_eq!(e.describe(), "ZktlsError(code: 1015, msg: ZkErrorCode::EmptyPlainResponse)");
}
