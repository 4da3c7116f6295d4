use beemesh::logging::{CryptoLogger, ProtocolLogger};

#[test]
fn test_protocol_logger_formatting() {
    // The lines the logger writes for each level.
    ProtocolLogger::info("test_protocol", "test message");
    ProtocolLogger::warn("test_protocol", "test warning");
    ProtocolLogger::debug("test_protocol", "test debug");
    ProtocolLogger::error("test_protocol", "test error");
}

#[test]
fn test_crypto_logger_operations() {
    CryptoLogger::log_crypto_operation("encryption", true, Some("AES-256"));
    CryptoLogger::log_crypto_operation("decryption", false, None);
}

#[test]
fn protocol_lines_are_exact() {
    assert_eq!(ProtocolLogger::info("kad", "hello"), "libp2p: [kad] hello");
    assert_eq!(ProtocolLogger::warn("kad", "w"), "libp2p: [kad] w");
    assert_eq!(ProtocolLogger::debug("kad", "d"), "libp2p: [kad] d");
    assert_eq!(ProtocolLogger::error("kad", "e"), "libp2p: [kad] e");
    assert_eq!(
        ProtocolLogger::log_failure("apply", "outbound", "peerA", "Timeout"),
        "libp2p: [apply] outbound failure with peer peerA: Timeout"
    );
    assert_eq!(
        ProtocolLogger::log_success("apply", "send", Some("peerB")),
        "libp2p: [apply] send successful with peer peerB"
    );
    assert_eq!(ProtocolLogger::log_success("apply", "send", None), "libp2p: [apply] send successful");
}

#[test]
fn crypto_lines_are_exact() {
    assert_eq!(
        CryptoLogger::log_crypto_operation("encryption", true, Some("AES-256")),
        "crypto: encryption successful: AES-256"
    );
    assert_eq!(
        CryptoLogger::log_crypto_operation("decryption", false, None),
        "crypto: decryption failed"
    );
    assert_eq!(
        CryptoLogger::log_signature_verification(true, Some("p1")),
        "signature verification successful for peer: p1"
    );
    assert_eq!(CryptoLogger::log_signature_verification(false, None), "signature verification failed");
}
