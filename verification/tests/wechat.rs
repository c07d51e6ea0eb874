use mahakala::error::AppError;
use mahakala::wechat::{generate_qr_png, png_file_name, svg_to_png, WechatManager, WechatQRStatus};

#[test]
fn qr_png_is_a_png_picture() {
    let png = generate_qr_png("session-123").unwrap();
    assert!(png.len() > 8);
    assert_eq!(&png[..8], &[0x89, b'P', b'N', b'G', 0x0d, 0x0a, 0x1a, 0x0a]);
}

#[test]
fn bad_svg_is_reported() {
    match svg_to_png("this is not svg") {
        Err(AppError::Internal(m)) => assert!(m.starts_with("Failed to parse SVG: ")),
        _ => panic!("expected a parse failure"),
    }
}

#[test]
fn png_file_names() {
    assert_eq!(png_file_name("abc"), "abc.png");
}

#[test]
fn qr_session_moves_from_wait_to_confirmed() {
    let mut m = WechatManager::new();
    let s = m.register_qr("s1".to_string(), vec![1, 2, 3]);
    assert_eq!(s.qr_url, "/api/wechat/qr/image/s1");
    assert_eq!(s.expires_at, s.created_at + 300);
    assert_eq!(s.status, WechatQRStatus::Wait);
    assert_eq!(s.status.as_str(), "wait");
    assert!(m.simulate_scan("s1").unwrap());
    assert_eq!(m.check_status("s1").unwrap().as_str(), "scaned");
    assert!(m.simulate_confirm("s1").unwrap());
    assert_eq!(m.get_session("s1").unwrap().status, WechatQRStatus::Confirmed);
    match m.check_status("missing") {
        Err(AppError::NotFound(msg)) => assert_eq!(msg, "QR session missing not found"),
        _ => panic!("expected not found"),
    }
}

#[test]
fn waiting_sessions_expire() {
    let mut m = WechatManager::new();
    let s = m.register_qr("s2".to_string(), vec![]);
    assert_eq!(m.check_status_at("s2", s.expires_at + 1).unwrap(), WechatQRStatus::Expired);
    let removed = m.cleanup_expired_at(s.expires_at + 1);
    assert_eq!(removed, vec!["s2".to_string()]);
    assert!(m.get_session("s2").is_none());
}
