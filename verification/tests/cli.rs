use qwartz::cli::{detect_format, encode, key_type_for_mode, Command, FileFormat};
use qwartz::zab_k::KeyType;
use qwartz::ZAB_VERSION;

fn args(list: &[&str]) -> Vec<String> {
    list.iter().map(|s| s.to_string()).collect()
}

#[test]
fn parse_keygen_defaults_and_options() {
    match Command::parse(&args(&["qwartz", "keygen"])) {
        Command::Keygen { mode, output } => {
            assert_eq!(mode, "aes");
            assert_eq!(output, "qwartz.key");
        }
        other => panic!("unexpected {:?}", other),
    }
    match Command::parse(&args(&["qwartz", "keygen", "--mode", "pq", "-o", "my.key", "x"])) {
        Command::Keygen { mode, output } => {
            assert_eq!(mode, "pq");
            assert_eq!(output, "my.key");
        }
        other => panic!("unexpected {:?}", other),
    }
    // A trailing option without a value is skipped.
    match Command::parse(&args(&["qwartz", "keygen", "-m"])) {
        Command::Keygen { mode, .. } => assert_eq!(mode, "aes"),
        other => panic!("unexpected {:?}", other),
    }
}

#[test]
fn parse_encrypt_and_decrypt() {
    match Command::parse(&args(&["q", "encrypt", "--key", "k", "-i", "in", "--output", "out"])) {
        Command::Encrypt { key, input, output } => {
            assert_eq!((key.as_str(), input.as_str(), output.as_str()), ("k", "in", "out"));
        }
        other => panic!("unexpected {:?}", other),
    }
    match Command::parse(&args(&["q", "decrypt", "-k", "k2"])) {
        Command::Decrypt { key, input, output } => {
            assert_eq!((key.as_str(), input.as_str(), output.as_str()), ("k2", "", ""));
        }
        other => panic!("unexpected {:?}", other),
    }
}

#[test]
fn parse_sync_verify_and_others() {
    match Command::parse(&args(&["q", "sync", "a", "-x", "b", "--y"])) {
        Command::Sync { peers } => assert_eq!(peers, vec!["a".to_string(), "b".to_string()]),
        other => panic!("unexpected {:?}", other),
    }
    match Command::parse(&args(&["q", "verify"])) {
        Command::Verify { input } => assert_eq!(input, ""),
        other => panic!("unexpected {:?}", other),
    }
    match Command::parse(&args(&["q", "verify", "f", "g"])) {
        Command::Verify { input } => assert_eq!(input, "f"),
        other => panic!("unexpected {:?}", other),
    }
    assert!(matches!(Command::parse(&args(&["q", "entropy"])), Command::Entropy));
    for v in ["version", "-v", "--version"] {
        assert!(matches!(Command::parse(&args(&["q", v])), Command::Version));
    }
    assert!(matches!(Command::parse(&args(&["q"])), Command::Help));
    assert!(matches!(Command::parse(&args(&["q", "nonsense"])), Command::Help));
    assert!(matches!(Command::parse(&args(&["q", "--help"])), Command::Help));
}

#[test]
fn hex_encoding() {
    assert_eq!(encode(&[0xde, 0xad, 0xbe, 0xef, 0x00, 0x0f]), "deadbeef000f");
    assert_eq!(encode(&[]), "");
}

#[test]
fn format_detection_and_key_modes() {
    assert_eq!(detect_format(b"ZAB-R01xyz"), FileFormat::Adaptive);
    assert_eq!(detect_format(b"ZAB-K01"), FileFormat::KeyBased);
    assert_eq!(detect_format(b"ZAB-K0"), FileFormat::Unknown);
    assert_eq!(detect_format(b""), FileFormat::Unknown);
    assert_eq!(key_type_for_mode("adaptive"), KeyType::SymmetricAES);
    assert_eq!(key_type_for_mode("pq"), KeyType::SymmetricAES);
    assert_eq!(ZAB_VERSION, "ZAB-GenZ-0.1.0");
}
