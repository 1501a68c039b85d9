use qr_region_scan::codes::{QrCodeResult, QrCodeType};

#[test]
fn test_qr_type_detection() {
    assert!(matches!(
        QrCodeType::from_content("https://example.com"),
        QrCodeType::Url
    ));
    assert!(matches!(
        QrCodeType::from_content("mailto:test@example.com"),
        QrCodeType::Email
    ));
    assert!(matches!(
        QrCodeType::from_content("tel:+1234567890"),
        QrCodeType::Phone
    ));
    assert!(matches!(
        QrCodeType::from_content("这是普通文本"),
        QrCodeType::Text
    ));
}

#[test]
fn kinds_of_short_contents() {
    assert_eq!(QrCodeType::from_content("https://x"), QrCodeType::Url);
    assert_eq!(QrCodeType::from_content("http://x"), QrCodeType::Url);
    assert_eq!(QrCodeType::from_content("mailto:a@b.c"), QrCodeType::Email);
    assert_eq!(QrCodeType::from_content("tel:+1"), QrCodeType::Phone);
    assert_eq!(QrCodeType::from_content("plain words"), QrCodeType::Text);
    assert_eq!(QrCodeType::from_content("http"), QrCodeType::Text);
    assert_eq!(QrCodeType::from_content("ftp://host/file"), QrCodeType::Other);
    assert_eq!(QrCodeType::from_content("see x://y"), QrCodeType::Other);
}

#[test]
fn kinds_of_edge_contents() {
    assert_eq!(QrCodeType::from_content(""), QrCodeType::Text);
    assert_eq!(QrCodeType::from_content("://"), QrCodeType::Other);
    assert_eq!(QrCodeType::from_content(":/"), QrCodeType::Text);
    assert_eq!(QrCodeType::from_content("HTTPS://X"), QrCodeType::Other);
    assert_eq!(QrCodeType::from_content("tel"), QrCodeType::Text);
}

#[test]
fn result_kind_follows_content() {
    let r = QrCodeResult::new("mailto:x@y.z".to_string());
    assert_eq!(r.content, "mailto:x@y.z");
    assert_eq!(r.qr_type, QrCodeType::Email);
}
