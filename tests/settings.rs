use winrm_client::{validate_flags, AuthMethod, ConfigError, Encryption, Verbosity};

#[test]
fn encrypt_and_no_encrypt_rejected() {
    assert!(matches!(validate_flags(true, true, false, false), Err(ConfigError::ConflictingEncryption)));
    assert!(matches!(validate_flags(true, true, true, true), Err(ConfigError::ConflictingEncryption)));
}

#[test]
fn verbose_and_quiet_rejected() {
    assert!(matches!(validate_flags(false, false, true, true), Err(ConfigError::ConflictingVerbosity)));
}

#[test]
fn valid_flags_accepted() {
    let f = validate_flags(true, false, true, false).ok().unwrap();
    assert_eq!(f.encryption, Encryption::Encrypt);
    assert_eq!(f.verbosity.level(), 2);
    let g = validate_flags(false, true, false, true).ok().unwrap();
    assert_eq!(g.encryption, Encryption::Plain);
    assert_eq!(g.verbosity.level(), 0);
    let h = validate_flags(false, false, false, false).ok().unwrap();
    assert_eq!(h.encryption, Encryption::Auto);
    assert!(!h.encryption.encrypt() && !h.encryption.no_encrypt());
}

#[test]
fn verbosity_gates() {
    let quiet = Verbosity::quiet();
    assert!(!quiet.info_enabled() && !quiet.verbose_enabled());
    let loud = Verbosity::from_flags(true, false).ok().unwrap();
    assert!(loud.info_enabled() && loud.verbose_enabled());
}

#[test]
fn auth_names() {
    assert_eq!(AuthMethod::Ntlm.as_str(), "ntlm");
    assert_eq!(AuthMethod::Basic.as_str(), "basic");
    assert_eq!(AuthMethod::Kerberos.as_str(), "kerberos");
}
