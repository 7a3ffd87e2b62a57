use trojan_proxy::tls::{SniPolicy, TlsSetupError};

fn strings(v: &[&str]) -> Vec<String> {
    v.iter().map(|s| s.to_string()).collect()
}

#[test]
fn configured_names_must_be_covered_by_the_certificate() {
    let r = SniPolicy::new(
        strings(&["a.example.com", "evil.com", "other.org"]),
        Some(strings(&["*.example.com"])),
    );
    match r {
        Err(TlsSetupError::SniNotInSan(name)) => assert_eq!(name, "evil.com"),
        _ => panic!("expected the startup check to fail"),
    }
}

#[test]
fn certificate_without_names_is_refused() {
    assert!(matches!(SniPolicy::new(Vec::new(), None), Err(TlsSetupError::SanMissing)));
}

#[test]
fn without_configured_names_the_certificate_decides() {
    let p = SniPolicy::new(Vec::new(), Some(strings(&["*.example.com", "example.org"]))).unwrap();
    assert!(p.sni_matched(Some("www.example.com")));
    assert!(p.sni_matched(Some("EXAMPLE.org")));
    assert!(!p.sni_matched(Some("evil.com")));
    assert!(!p.sni_matched(None));
}

#[test]
fn configured_names_decide() {
    let p = SniPolicy::new(strings(&["www.example.com"]), Some(strings(&["*.example.com"]))).unwrap();
    assert!(p.sni_matched(Some("www.example.com")));
    assert!(!p.sni_matched(Some("mail.example.com")));
    assert!(!p.sni_matched(None));
}
