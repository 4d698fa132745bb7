use vpn_daemon::version;
use vpn_daemon::{HandshakeError, KyberError, RotationError, VpnError};

#[test]
fn test_version() {
    assert!(!version().is_empty());
}

#[test]
fn lib_test_version() {
    assert!(!version().is_empty());
    assert_eq!(version(), "0.1.0");
}

#[test]
fn errors_convert_upwards() {
    let h: HandshakeError = KyberError::DecapsulationFailed.into();
    assert!(matches!(h, HandshakeError::KyberError(KyberError::DecapsulationFailed)));
    let r: RotationError = HandshakeError::InvalidMessage.into();
    assert!(matches!(r, RotationError::HandshakeError(HandshakeError::InvalidMessage)));
    let v: VpnError = RotationError::RekeyInProgress.into();
    assert!(matches!(v, VpnError::Rotation(RotationError::RekeyInProgress)));
    let k: VpnError = KyberError::InvalidParameter("x".to_string()).into();
    assert!(matches!(k, VpnError::Kyber(KyberError::InvalidParameter(_))));
    let t: VpnError = HandshakeError::TimestampError.into();
    assert!(matches!(t, VpnError::Handshake(HandshakeError::TimestampError)));
}
