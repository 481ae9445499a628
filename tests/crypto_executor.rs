use indy_commands::{
    validate_key, CommandOutput, CryptoCommand, CryptoCommandExecutor, ErrorKind, Key, KeyInfo, Pending,
    PrimitiveCall, PrimitiveOutput, Step, Wallet,
};

const VK: &str = "GJ1SzoWzavQYfNL9XkaJdrQejfztN4XqdsiV4ct3LXKL";
const VK2: &str = "CnEDk9HrMnmiHXEV1WFgbVCRteYnPqsJwrTdcZaNhFVW";

fn executor() -> CryptoCommandExecutor {
    CryptoCommandExecutor::new(Wallet::new())
}

/// A stand-in primitive provider: a key pair whose signkey is the verkey's
/// bytes, a "signature" that is signkey followed by the message, and
/// "encryption" that prefixes the parties' verkeys.
fn perform(call: &PrimitiveCall) -> Result<PrimitiveOutput, ErrorKind> {
    match call {
        PrimitiveCall::CreateKey(info) => {
            let vk = info.seed.clone().unwrap_or(VK.to_string());
            Ok(PrimitiveOutput::Key(Key { signkey: vk.as_bytes().to_vec(), verkey: vk }))
        }
        PrimitiveCall::Sign(key, msg) => {
            let mut sig = key.signkey.clone();
            sig.extend_from_slice(msg);
            Ok(PrimitiveOutput::Bytes(sig))
        }
        PrimitiveCall::Verify(vk, msg, sig) => {
            let mut expected = vk.as_bytes().to_vec();
            expected.extend_from_slice(msg);
            Ok(PrimitiveOutput::Valid(&expected == sig))
        }
        PrimitiveCall::AuthenticatedEncrypt(key, _their, msg) => {
            let mut ct = key.verkey.as_bytes().to_vec();
            ct.push(b'|');
            ct.extend_from_slice(msg);
            Ok(PrimitiveOutput::Bytes(ct))
        }
        PrimitiveCall::AuthenticatedDecrypt(_key, ct) => {
            let at = ct.iter().position(|b| *b == b'|').ok_or(ErrorKind::CryptoOperationFailed)?;
            let sender = String::from_utf8(ct[..at].to_vec()).map_err(|_| ErrorKind::CryptoOperationFailed)?;
            Ok(PrimitiveOutput::Opened(sender, ct[at + 1..].to_vec()))
        }
        PrimitiveCall::Seal(_their, msg) => Ok(PrimitiveOutput::Bytes(msg.iter().rev().cloned().collect())),
        PrimitiveCall::SealOpen(_key, ct) => Ok(PrimitiveOutput::Bytes(ct.iter().rev().cloned().collect())),
    }
}

fn run(e: &mut CryptoCommandExecutor, cmd: CryptoCommand) -> Result<CommandOutput, ErrorKind> {
    match e.execute(cmd) {
        Step::Done(r) => r,
        Step::Call(p) => {
            let out = perform(&p.call);
            e.resume(p, out)
        }
    }
}

fn info(seed: Option<&str>) -> KeyInfo {
    KeyInfo { seed: seed.map(|s| s.to_string()), crypto_type: None }
}

fn bytes_of(r: Result<CommandOutput, ErrorKind>) -> Vec<u8> {
    match r {
        Ok(CommandOutput::Bytes(b)) => b,
        _ => panic!("expected bytes"),
    }
}

#[test]
fn validate_key_accepts_plain_abbreviated_and_qualified() {
    assert_eq!(validate_key(VK), Ok(()));
    assert_eq!(validate_key(&format!("~{}", VK)), Ok(()));
    assert_eq!(validate_key(&format!("{}:ed25519", VK)), Ok(()));
    assert_eq!(validate_key(&format!("~{}:ed25519", VK)), Ok(()));
    assert_eq!(validate_key(&"1".repeat(32)), Ok(()));
    assert_eq!(validate_key(&"z".repeat(43)), Ok(()));
}

#[test]
fn validate_key_requires_exactly_thirty_two_decoded_bytes() {
    assert_eq!(validate_key(&"1".repeat(33)), Err(ErrorKind::InvalidKeyFormat));
    assert_eq!(validate_key(&"z".repeat(44)), Err(ErrorKind::InvalidKeyFormat));
    assert_eq!(validate_key(&"2".repeat(43)), Err(ErrorKind::InvalidKeyFormat));
    assert_eq!(validate_key(&format!("1{}", "z".repeat(43))), Err(ErrorKind::InvalidKeyFormat));
}

#[test]
fn validate_key_rejects_malformed() {
    assert_eq!(validate_key(""), Err(ErrorKind::InvalidKeyFormat));
    assert_eq!(validate_key("VsKV7grR1BUE29mG2Fm2kX"), Err(ErrorKind::InvalidKeyFormat));
    assert_eq!(validate_key(&"1".repeat(45)), Err(ErrorKind::InvalidKeyFormat));
    assert_eq!(validate_key(&format!("0{}", &VK[1..])), Err(ErrorKind::InvalidKeyFormat));
    assert_eq!(validate_key(&format!("{}:secp256k1", VK)), Err(ErrorKind::InvalidKeyFormat));
    assert_eq!(validate_key(&format!("{}:ed25518", VK)), Err(ErrorKind::InvalidKeyFormat));
    assert_eq!(validate_key(&format!("~~{}", VK)), Err(ErrorKind::InvalidKeyFormat));
    assert_eq!(validate_key(":ed25519"), Err(ErrorKind::InvalidKeyFormat));
}

#[test]
fn metadata_round_trip() {
    let mut e = executor();
    assert!(matches!(run(&mut e, CryptoCommand::SetKeyMetadata(1, VK.to_string(), "m".to_string())), Ok(CommandOutput::Unit)));
    match run(&mut e, CryptoCommand::GetKeyMetadata(1, VK.to_string())) {
        Ok(CommandOutput::Metadata(m)) => assert_eq!(m, "m"),
        _ => panic!("metadata expected"),
    }
}

#[test]
fn metadata_overwrite_keeps_latest() {
    let mut e = executor();
    run(&mut e, CryptoCommand::SetKeyMetadata(1, VK.to_string(), "first".to_string())).unwrap();
    run(&mut e, CryptoCommand::SetKeyMetadata(1, VK.to_string(), "second".to_string())).unwrap();
    match run(&mut e, CryptoCommand::GetKeyMetadata(1, VK.to_string())) {
        Ok(CommandOutput::Metadata(m)) => assert_eq!(m, "second"),
        _ => panic!("metadata expected"),
    }
}

#[test]
fn metadata_is_scoped_by_wallet_and_missing_is_not_found() {
    let mut e = executor();
    run(&mut e, CryptoCommand::SetKeyMetadata(1, VK.to_string(), "m".to_string())).unwrap();
    assert!(matches!(run(&mut e, CryptoCommand::GetKeyMetadata(2, VK.to_string())), Err(ErrorKind::WalletItemNotFound)));
    assert!(matches!(run(&mut e, CryptoCommand::GetKeyMetadata(1, VK2.to_string())), Err(ErrorKind::WalletItemNotFound)));
}

#[test]
fn malformed_verkey_is_rejected_before_the_wallet() {
    let mut e = executor();
    let bad = "not a key".to_string();
    assert!(matches!(e.execute(CryptoCommand::SetKeyMetadata(1, bad.clone(), "m".to_string())), Step::Done(Err(ErrorKind::InvalidKeyFormat))));
    assert!(matches!(e.execute(CryptoCommand::GetKeyMetadata(1, bad.clone())), Step::Done(Err(ErrorKind::InvalidKeyFormat))));
    assert!(matches!(e.execute(CryptoCommand::CryptoSign(1, bad.clone(), vec![1])), Step::Done(Err(ErrorKind::InvalidKeyFormat))));
    assert!(matches!(e.execute(CryptoCommand::CryptoVerify(bad.clone(), vec![1], vec![2])), Step::Done(Err(ErrorKind::InvalidKeyFormat))));
    assert!(matches!(e.execute(CryptoCommand::AuthenticatedEncrypt(1, VK.to_string(), bad.clone(), vec![1])), Step::Done(Err(ErrorKind::InvalidKeyFormat))));
    assert!(matches!(e.execute(CryptoCommand::AuthenticatedDecrypt(1, bad.clone(), vec![1])), Step::Done(Err(ErrorKind::InvalidKeyFormat))));
    assert!(matches!(e.execute(CryptoCommand::AnonymousEncrypt(bad.clone(), vec![1])), Step::Done(Err(ErrorKind::InvalidKeyFormat))));
    assert!(matches!(e.execute(CryptoCommand::AnonymousDecrypt(1, bad, vec![1])), Step::Done(Err(ErrorKind::InvalidKeyFormat))));
    // nothing was stored by the refused SetKeyMetadata
    assert!(matches!(e.execute(CryptoCommand::GetKeyMetadata(1, VK.to_string())), Step::Done(Err(ErrorKind::WalletItemNotFound))));
}

#[test]
fn sign_without_stored_key_is_not_found() {
    let mut e = executor();
    assert!(matches!(e.execute(CryptoCommand::CryptoSign(1, VK.to_string(), vec![1])), Step::Done(Err(ErrorKind::WalletItemNotFound))));
    assert!(matches!(e.execute(CryptoCommand::AnonymousDecrypt(1, VK.to_string(), vec![1])), Step::Done(Err(ErrorKind::WalletItemNotFound))));
}

#[test]
fn create_key_stores_key_and_refuses_duplicate() {
    let mut e = executor();
    match run(&mut e, CryptoCommand::CreateKey(1, info(None))) {
        Ok(CommandOutput::Verkey(v)) => assert_eq!(v, VK),
        _ => panic!("verkey expected"),
    }
    assert!(matches!(run(&mut e, CryptoCommand::CreateKey(1, info(None))), Err(ErrorKind::WalletItemAlreadyExists)));
    // another wallet scope takes the same verkey
    assert!(matches!(run(&mut e, CryptoCommand::CreateKey(2, info(None))), Ok(CommandOutput::Verkey(_))));
}

#[test]
fn sign_hands_stored_key_and_message_to_the_primitive() {
    let mut e = executor();
    run(&mut e, CryptoCommand::CreateKey(1, info(Some(VK2)))).unwrap();
    match e.execute(CryptoCommand::CryptoSign(1, VK2.to_string(), b"hi".to_vec())) {
        Step::Call(Pending { wallet_handle, call: PrimitiveCall::Sign(key, msg) }) => {
            assert_eq!(wallet_handle, 1);
            assert_eq!(key.verkey, VK2);
            assert_eq!(key.signkey, VK2.as_bytes().to_vec());
            assert_eq!(msg, b"hi".to_vec());
        }
        _ => panic!("sign call expected"),
    }
}

#[test]
fn sign_then_verify_scenario() {
    let mut e = executor();
    let v = match run(&mut e, CryptoCommand::CreateKey(1, info(None))) {
        Ok(CommandOutput::Verkey(v)) => v,
        _ => panic!("verkey expected"),
    };
    let s = bytes_of(run(&mut e, CryptoCommand::CryptoSign(1, v.clone(), b"hello".to_vec())));
    assert!(matches!(run(&mut e, CryptoCommand::CryptoVerify(v.clone(), b"hello".to_vec(), s.clone())), Ok(CommandOutput::Valid(true))));
    assert!(matches!(run(&mut e, CryptoCommand::CryptoVerify(v, b"tampered".to_vec(), s)), Ok(CommandOutput::Valid(false))));
}

#[test]
fn authenticated_round_trip_recovers_sender() {
    let mut e = executor();
    run(&mut e, CryptoCommand::CreateKey(1, info(None))).unwrap();
    let ct = bytes_of(run(&mut e, CryptoCommand::AuthenticatedEncrypt(1, VK.to_string(), VK2.to_string(), b"msg".to_vec())));
    match run(&mut e, CryptoCommand::AuthenticatedDecrypt(1, VK.to_string(), ct)) {
        Ok(CommandOutput::Opened(sender, msg)) => {
            assert_eq!(sender, VK);
            assert_eq!(msg, b"msg".to_vec());
        }
        _ => panic!("opened message expected"),
    }
}

#[test]
fn authenticated_decrypt_rejects_malformed_sender() {
    let mut e = executor();
    run(&mut e, CryptoCommand::CreateKey(1, info(None))).unwrap();
    let ct = b"bogus|msg".to_vec();
    assert!(matches!(run(&mut e, CryptoCommand::AuthenticatedDecrypt(1, VK.to_string(), ct)), Err(ErrorKind::InvalidKeyFormat)));
}

#[test]
fn anonymous_round_trip() {
    let mut e = executor();
    run(&mut e, CryptoCommand::CreateKey(1, info(None))).unwrap();
    let ct = bytes_of(run(&mut e, CryptoCommand::AnonymousEncrypt(VK.to_string(), b"secret".to_vec())));
    assert_eq!(ct, b"terces".to_vec());
    assert_eq!(bytes_of(run(&mut e, CryptoCommand::AnonymousDecrypt(1, VK.to_string(), ct))), b"secret".to_vec());
}

#[test]
fn primitive_errors_pass_through_and_mismatches_fail() {
    let mut e = executor();
    let p = Pending { wallet_handle: 1, call: PrimitiveCall::Seal(VK.to_string(), vec![1]) };
    assert!(matches!(e.resume(p, Err(ErrorKind::CryptoOperationFailed)), Err(ErrorKind::CryptoOperationFailed)));
    let p = Pending { wallet_handle: 1, call: PrimitiveCall::Verify(VK.to_string(), vec![1], vec![2]) };
    assert!(matches!(e.resume(p, Ok(PrimitiveOutput::Bytes(vec![1]))), Err(ErrorKind::CryptoOperationFailed)));
    let p = Pending { wallet_handle: 1, call: PrimitiveCall::Sign(Key { verkey: VK.to_string(), signkey: vec![] }, vec![]) };
    assert!(matches!(e.resume(p, Err(ErrorKind::WalletItemNotFound)), Err(ErrorKind::WalletItemNotFound)));
}
