use std::time::Duration;

use rota_lb::{check_server_name, client_config, PrivateKey, TlsConfig};

/// A self-signed root certificate, `CN=root`.
const ROOT: &[u8] = &[
    0x30, 0x82, 0x01, 0x75, 0x30, 0x82, 0x01, 0x1b, 0xa0, 0x03, 0x02, 0x01, 0x02, 0x02, 0x14,
    0x13, 0x1f, 0xfd, 0x92, 0xb6, 0x37, 0x80, 0xc4, 0x89, 0x81, 0x11, 0x21, 0xb4, 0x9c, 0xae,
    0xd1, 0xc0, 0x18, 0xec, 0x6d, 0x30, 0x0a, 0x06, 0x08, 0x2a, 0x86, 0x48, 0xce, 0x3d, 0x04,
    0x03, 0x02, 0x30, 0x0f, 0x31, 0x0d, 0x30, 0x0b, 0x06, 0x03, 0x55, 0x04, 0x03, 0x0c, 0x04,
    0x72, 0x6f, 0x6f, 0x74, 0x30, 0x20, 0x17, 0x0d, 0x32, 0x36, 0x31, 0x31, 0x31, 0x36, 0x31,
    0x35, 0x30, 0x37, 0x32, 0x38, 0x5a, 0x18, 0x0f, 0x32, 0x31, 0x32, 0x36, 0x31, 0x30, 0x32,
    0x33, 0x31, 0x35, 0x30, 0x37, 0x32, 0x38, 0x5a, 0x30, 0x0f, 0x31, 0x0d, 0x30, 0x0b, 0x06,
    0x03, 0x55, 0x04, 0x03, 0x0c, 0x04, 0x72, 0x6f, 0x6f, 0x74, 0x30, 0x59, 0x30, 0x13, 0x06,
    0x07, 0x2a, 0x86, 0x48, 0xce, 0x3d, 0x02, 0x01, 0x06, 0x08, 0x2a, 0x86, 0x48, 0xce, 0x3d,
    0x03, 0x01, 0x07, 0x03, 0x42, 0x00, 0x04, 0xa4, 0x5f, 0xed, 0x39, 0x0d, 0x14, 0x1b, 0x81,
    0x60, 0xf3, 0x24, 0x2d, 0xd6, 0xbb, 0xcc, 0x23, 0xe4, 0xb1, 0x8b, 0x95, 0x97, 0x31, 0xa7,
    0x6a, 0x72, 0xc6, 0x4e, 0xf2, 0x36, 0x16, 0x22, 0xfd, 0xc4, 0xb7, 0x21, 0x6c, 0x13, 0xbd,
    0xf6, 0x57, 0x7c, 0x71, 0xd8, 0xd9, 0xf5, 0xae, 0xde, 0x95, 0x22, 0x76, 0xd9, 0xe8, 0xa2,
    0x41, 0x49, 0x13, 0xb7, 0xbc, 0xe2, 0x76, 0x31, 0x03, 0x85, 0xad, 0xa3, 0x53, 0x30, 0x51,
    0x30, 0x1d, 0x06, 0x03, 0x55, 0x1d, 0x0e, 0x04, 0x16, 0x04, 0x14, 0x22, 0x6e, 0xf5, 0x48,
    0x6f, 0x90, 0xad, 0x6f, 0x0c, 0x9e, 0x85, 0xa5, 0x32, 0xc3, 0xc7, 0x4e, 0x07, 0x7f, 0x51,
    0x58, 0x30, 0x1f, 0x06, 0x03, 0x55, 0x1d, 0x23, 0x04, 0x18, 0x30, 0x16, 0x80, 0x14, 0x22,
    0x6e, 0xf5, 0x48, 0x6f, 0x90, 0xad, 0x6f, 0x0c, 0x9e, 0x85, 0xa5, 0x32, 0xc3, 0xc7, 0x4e,
    0x07, 0x7f, 0x51, 0x58, 0x30, 0x0f, 0x06, 0x03, 0x55, 0x1d, 0x13, 0x01, 0x01, 0xff, 0x04,
    0x05, 0x30, 0x03, 0x01, 0x01, 0xff, 0x30, 0x0a, 0x06, 0x08, 0x2a, 0x86, 0x48, 0xce, 0x3d,
    0x04, 0x03, 0x02, 0x03, 0x48, 0x00, 0x30, 0x45, 0x02, 0x20, 0x65, 0x12, 0x63, 0xe3, 0xc6,
    0x55, 0xc2, 0xf1, 0x68, 0x81, 0x10, 0x7e, 0x78, 0x12, 0x59, 0x01, 0x5c, 0xdc, 0xb2, 0xf2,
    0x56, 0x73, 0xa7, 0x94, 0x03, 0x13, 0x09, 0x04, 0x3c, 0x5d, 0x35, 0xb7, 0x02, 0x21, 0x00,
    0xad, 0x9e, 0x86, 0x52, 0xea, 0x72, 0x0f, 0x3a, 0xb7, 0x72, 0x33, 0xdf, 0xf4, 0xce, 0xd1,
    0x2a, 0x96, 0xb0, 0x28, 0x36, 0x53, 0x61, 0x32, 0x4b, 0xf3, 0xde, 0xb4, 0x74, 0x1d, 0xfe,
    0x82, 0x40,
];

/// A self-signed client certificate, `CN=client`, made for these tests.
const CLIENT: &[u8] = &[
    0x30, 0x82, 0x01, 0x78, 0x30, 0x82, 0x01, 0x1f, 0xa0, 0x03, 0x02, 0x01, 0x02, 0x02, 0x14,
    0x06, 0xa3, 0xb3, 0xe3, 0xc7, 0x69, 0xf8, 0xc9, 0x18, 0x99, 0x4c, 0xde, 0xdc, 0x21, 0x0a,
    0xa7, 0x2b, 0xe2, 0x39, 0xa7, 0x30, 0x0a, 0x06, 0x08, 0x2a, 0x86, 0x48, 0xce, 0x3d, 0x04,
    0x03, 0x02, 0x30, 0x11, 0x31, 0x0f, 0x30, 0x0d, 0x06, 0x03, 0x55, 0x04, 0x03, 0x0c, 0x06,
    0x63, 0x6c, 0x69, 0x65, 0x6e, 0x74, 0x30, 0x20, 0x17, 0x0d, 0x32, 0x36, 0x31, 0x31, 0x31,
    0x36, 0x31, 0x37, 0x32, 0x32, 0x31, 0x35, 0x5a, 0x18, 0x0f, 0x32, 0x31, 0x32, 0x36, 0x31,
    0x30, 0x32, 0x33, 0x31, 0x37, 0x32, 0x32, 0x31, 0x35, 0x5a, 0x30, 0x11, 0x31, 0x0f, 0x30,
    0x0d, 0x06, 0x03, 0x55, 0x04, 0x03, 0x0c, 0x06, 0x63, 0x6c, 0x69, 0x65, 0x6e, 0x74, 0x30,
    0x59, 0x30, 0x13, 0x06, 0x07, 0x2a, 0x86, 0x48, 0xce, 0x3d, 0x02, 0x01, 0x06, 0x08, 0x2a,
    0x86, 0x48, 0xce, 0x3d, 0x03, 0x01, 0x07, 0x03, 0x42, 0x00, 0x04, 0x7c, 0xf7, 0x0d, 0x76,
    0xd5, 0x59, 0x7b, 0xdf, 0x1e, 0xec, 0x89, 0xb5, 0x01, 0xa6, 0x0c, 0x51, 0x7b, 0xf7, 0xd1,
    0x11, 0x7a, 0xf7, 0x43, 0x18, 0xde, 0xa6, 0x33, 0x36, 0x03, 0x6b, 0x77, 0x5f, 0xf1, 0x28,
    0x96, 0x8e, 0xae, 0xdb, 0x33, 0x0f, 0xb4, 0x58, 0xef, 0x4e, 0xe2, 0x35, 0xc1, 0xbd, 0x7b,
    0x52, 0x63, 0x6f, 0x42, 0xa0, 0xf6, 0x57, 0xc1, 0x0f, 0xba, 0x74, 0xd7, 0x44, 0x44, 0x52,
    0xa3, 0x53, 0x30, 0x51, 0x30, 0x1d, 0x06, 0x03, 0x55, 0x1d, 0x0e, 0x04, 0x16, 0x04, 0x14,
    0x77, 0x96, 0x90, 0x0b, 0x9a, 0x31, 0xf5, 0xd2, 0x6b, 0x23, 0x06, 0x43, 0xae, 0x19, 0xb2,
    0xef, 0x3b, 0x18, 0x39, 0x08, 0x30, 0x1f, 0x06, 0x03, 0x55, 0x1d, 0x23, 0x04, 0x18, 0x30,
    0x16, 0x80, 0x14, 0x77, 0x96, 0x90, 0x0b, 0x9a, 0x31, 0xf5, 0xd2, 0x6b, 0x23, 0x06, 0x43,
    0xae, 0x19, 0xb2, 0xef, 0x3b, 0x18, 0x39, 0x08, 0x30, 0x0f, 0x06, 0x03, 0x55, 0x1d, 0x13,
    0x01, 0x01, 0xff, 0x04, 0x05, 0x30, 0x03, 0x01, 0x01, 0xff, 0x30, 0x0a, 0x06, 0x08, 0x2a,
    0x86, 0x48, 0xce, 0x3d, 0x04, 0x03, 0x02, 0x03, 0x47, 0x00, 0x30, 0x44, 0x02, 0x20, 0x34,
    0x97, 0x22, 0xd7, 0xba, 0x11, 0x8b, 0xbb, 0x8c, 0x2f, 0xab, 0xb3, 0x42, 0x90, 0x3b, 0xf9,
    0xe1, 0xb7, 0x12, 0x0c, 0xb3, 0x98, 0x78, 0x8a, 0x4f, 0x63, 0x29, 0x2e, 0xb4, 0x11, 0x79,
    0x6b, 0x02, 0x20, 0x73, 0x5e, 0xae, 0x11, 0x14, 0x97, 0x17, 0x43, 0x3a, 0xf5, 0xeb, 0xda,
    0x5a, 0xd0, 0x71, 0x2b, 0x03, 0xb6, 0x3e, 0x89, 0x52, 0x33, 0x9a, 0x7c, 0x43, 0x01, 0x11,
    0x6b, 0xc6, 0x7a, 0x8c, 0x76,
];

/// The key of that certificate.
const CLIENT_KEY: &[u8] = &[
    0x30, 0x81, 0x87, 0x02, 0x01, 0x00, 0x30, 0x13, 0x06, 0x07, 0x2a, 0x86, 0x48, 0xce, 0x3d,
    0x02, 0x01, 0x06, 0x08, 0x2a, 0x86, 0x48, 0xce, 0x3d, 0x03, 0x01, 0x07, 0x04, 0x6d, 0x30,
    0x6b, 0x02, 0x01, 0x01, 0x04, 0x20, 0x4c, 0x09, 0x56, 0xde, 0xb7, 0xab, 0x1c, 0x16, 0xad,
    0x6d, 0x87, 0x01, 0x22, 0x75, 0x53, 0x05, 0x38, 0xdb, 0xb9, 0x01, 0xf2, 0xdc, 0xc7, 0xc1,
    0x90, 0x0c, 0x16, 0x2c, 0x06, 0x34, 0xb4, 0x8a, 0xa1, 0x44, 0x03, 0x42, 0x00, 0x04, 0x7c,
    0xf7, 0x0d, 0x76, 0xd5, 0x59, 0x7b, 0xdf, 0x1e, 0xec, 0x89, 0xb5, 0x01, 0xa6, 0x0c, 0x51,
    0x7b, 0xf7, 0xd1, 0x11, 0x7a, 0xf7, 0x43, 0x18, 0xde, 0xa6, 0x33, 0x36, 0x03, 0x6b, 0x77,
    0x5f, 0xf1, 0x28, 0x96, 0x8e, 0xae, 0xdb, 0x33, 0x0f, 0xb4, 0x58, 0xef, 0x4e, 0xe2, 0x35,
    0xc1, 0xbd, 0x7b, 0x52, 0x63, 0x6f, 0x42, 0xa0, 0xf6, 0x57, 0xc1, 0x0f, 0xba, 0x74, 0xd7,
    0x44, 0x44, 0x52,
];

fn config() -> TlsConfig {
    TlsConfig::new("example.com".to_string())
}

#[test]
fn new_configs_check_everything() {
    let c = config();
    assert_eq!(c.server_name, "example.com");
    assert!(c.root_certs.is_none());
    assert!(c.needs_native_certs());
    assert!(c.client_cert.is_none());
    assert!(c.verify_hostname);
    assert_eq!(c.connect_timeout, None);
    assert_eq!(c.alpn_protocols, vec![b"h2".to_vec(), b"http/1.1".to_vec()]);
}

#[test]
fn settings_carry_over_into_the_plan() {
    let c = config()
        .with_root_certs(vec![ROOT.to_vec(), ROOT.to_vec()])
        .with_client_cert(vec![vec![1]], PrivateKey::Pkcs8(vec![2]))
        .danger_bypass_hostname_check_only()
        .with_connect_timeout(Duration::from_secs(1))
        .with_alpn_protocols(vec![b"h3".to_vec()]);
    assert_eq!(c.connect_timeout, Some(Duration::from_secs(1)));
    assert!(!c.needs_native_certs());
    let plan = c.build_client_config(Err("not read".to_string())).unwrap();
    assert!(!plan.verify_hostname);
    assert!(plan.client_cert.is_some());
    assert_eq!(plan.alpn_protocols, vec![b"h3".to_vec()]);
}

#[test]
fn both_names_bypass_the_hostname_check() {
    assert!(!config().danger_bypass_hostname_check_only().verify_hostname);
    assert!(!config().danger_disable_hostname_verification().verify_hostname);
}

#[test]
fn native_certificates_fill_in() {
    let plan = config().build_client_config(Ok(vec![ROOT.to_vec()])).unwrap();
    assert!(plan.verify_hostname);
    assert!(plan.client_cert.is_none());
}

#[test]
fn without_roots_there_is_no_verifier() {
    let e = config().build_client_config(Ok(Vec::new())).unwrap_err();
    assert_eq!(
        e.message(),
        "backend operation failed: verifier builder: no root trust anchors were provided"
    );
    let e = config().with_root_certs(Vec::new()).build_client_config(Ok(vec![ROOT.to_vec()]));
    assert!(e.is_err());
}

#[test]
fn unreadable_roots_are_reported() {
    let e = config()
        .with_root_certs(vec![ROOT.to_vec(), vec![1, 2, 3]])
        .build_client_config(Ok(Vec::new()))
        .unwrap_err();
    assert!(e.message().starts_with("backend operation failed: failed to add root cert: "));
    assert!(e.message().len() > 60);
    let e = config().build_client_config(Err("no store".to_string())).unwrap_err();
    assert_eq!(e.message(), "backend operation failed: failed to load native certs: no store");
}

#[test]
fn clients_without_a_certificate_are_anonymous() {
    let plan = config().build_client_config(Ok(vec![ROOT.to_vec()])).unwrap();
    let client = client_config(plan).unwrap();
    assert!(!client.client_auth_cert_resolver.has_certs());
    assert!(client.enable_sni);
    assert_eq!(client.alpn_protocols, vec![b"h2".to_vec(), b"http/1.1".to_vec()]);
}

#[test]
fn clients_present_their_certificate() {
    let plan = config()
        .with_client_cert(vec![CLIENT.to_vec()], PrivateKey::Pkcs8(CLIENT_KEY.to_vec()))
        .with_alpn_protocols(vec![b"h3".to_vec()])
        .build_client_config(Ok(vec![ROOT.to_vec()]))
        .unwrap();
    let client = client_config(plan).unwrap();
    assert!(client.client_auth_cert_resolver.has_certs());
    let schemes = [rustls::SignatureScheme::ECDSA_NISTP256_SHA256];
    let presented = client.client_auth_cert_resolver.resolve(&[], &schemes).unwrap();
    assert_eq!(presented.cert.len(), 1);
    assert_eq!(presented.cert[0].as_ref(), CLIENT);
    assert_eq!(client.alpn_protocols, vec![b"h3".to_vec()]);
    assert!(client.enable_sni);
}

#[test]
fn keys_that_do_not_fit_are_reported() {
    let refused = |certs: Vec<Vec<u8>>, key: PrivateKey| {
        let plan = config()
            .with_client_cert(certs, key)
            .build_client_config(Ok(vec![ROOT.to_vec()]))
            .unwrap();
        client_config(plan).unwrap_err().message()
    };
    let unreadable = refused(vec![CLIENT.to_vec()], PrivateKey::Sec1(vec![1, 2, 3]));
    assert!(unreadable.starts_with("backend operation failed: client cert: "));
    assert!(unreadable.len() > 40);
    let foreign = refused(vec![ROOT.to_vec()], PrivateKey::Pkcs8(CLIENT_KEY.to_vec()));
    assert!(foreign.starts_with("backend operation failed: client cert: "));
    assert_ne!(foreign, unreadable);
}

#[test]
fn server_names_are_dns_names() {
    assert!(check_server_name("example.com").is_ok());
    assert!(check_server_name("a_b.example.com.").is_ok());
    assert!(check_server_name("1-2").is_ok());
    assert!(check_server_name("_").is_ok());
    assert!(check_server_name("10.a").is_ok());
    assert!(check_server_name(&"a".repeat(63)).is_ok());
    assert!(check_server_name(&"a.".repeat(126)).is_ok());
    assert!(check_server_name(&format!("{}a", "a.".repeat(126))).is_ok());
    let label = "a".repeat(64);
    let long = "a.".repeat(127);
    for bad in [
        "", ".", "a b", "-a.com", "a-.com", "a-", "a..b", "a..", ".a", "10.0.0.1", "a.1", "a.1.",
        "h\u{e9}llo", label.as_str(), long.as_str(),
    ] {
        assert_eq!(
            check_server_name(bad).unwrap_err().message(),
            "backend operation failed: invalid server name: invalid dns name"
        );
    }
}
