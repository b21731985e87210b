use winrm_client::{exit_code, Failure};

#[test]
fn exit_codes_by_kind() {
    assert_eq!(exit_code(&Err(Failure::AuthenticationFailed("denied".to_string()))), 1);
    assert_eq!(exit_code(&Err(Failure::ConnectionError("refused".to_string()))), 2);
    assert_eq!(exit_code(&Err(Failure::InvalidResponse("garbled".to_string()))), 2);
    assert_eq!(exit_code(&Err(Failure::FileTransferError("missing".to_string()))), 4);
    assert_eq!(exit_code(&Err(Failure::Other("odd".to_string()))), 3);
}

#[test]
fn success_exits_zero() {
    assert_eq!(exit_code(&Ok(())), 0);
}

#[test]
fn remote_exit_five_maps_to_command_error() {
    let r = winrm_client::outcome::command_result(5);
    assert!(matches!(r, Err(Failure::CommandFailed(5))));
    assert_eq!(exit_code(&r), 3);
}

#[test]
fn remote_exit_zero_is_success() {
    assert!(winrm_client::outcome::command_result(0).is_ok());
}
