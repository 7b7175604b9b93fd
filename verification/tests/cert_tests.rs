use privaxy::cert::{
    der_certificates, CacheDecision, CertCache, LeafEntry, leaf_params, reload_keeps_cache,
};
use privaxy::textutil::base64_encode;

fn leaf(host: &str) -> LeafEntry {
    LeafEntry {
        hostname: host.to_string(),
        chain_der: vec![1, 2, 3],
        private_key_der: vec![4, 5, 6],
        not_before: 100,
        not_after: 200,
    }
}

#[test]
fn miss_grants_the_single_mint() {
    let mut cache = CertCache::new();
    assert!(matches!(cache.get_or_reserve("example.org"), CacheDecision::Mint));
    assert!(matches!(cache.get_or_reserve("example.org"), CacheDecision::Wait));
    assert!(matches!(cache.get_or_reserve("other.org"), CacheDecision::Mint));
}

#[test]
fn fulfilled_leaf_is_returned_byte_identical() {
    let mut cache = CertCache::new();
    assert!(matches!(cache.get_or_reserve("example.org"), CacheDecision::Mint));
    cache.fulfill("example.org", leaf("example.org"));
    match cache.get_or_reserve("example.org") {
        CacheDecision::Ready(entry) => {
            assert_eq!(entry.hostname, "example.org");
            assert_eq!(entry.chain_der, vec![1, 2, 3]);
            assert_eq!(entry.private_key_der, vec![4, 5, 6]);
            assert_eq!(entry.not_before, 100);
            assert_eq!(entry.not_after, 200);
        },
        _ => panic!("expected the minted leaf"),
    }
    match cache.get_or_reserve("example.org") {
        CacheDecision::Ready(entry) => assert_eq!(entry.chain_der, vec![1, 2, 3]),
        _ => panic!("the minted leaf must stay for the whole run"),
    }
}

#[test]
fn failed_mint_releases_the_slot() {
    let mut cache = CertCache::new();
    assert!(matches!(cache.get_or_reserve("example.org"), CacheDecision::Mint));
    cache.fail("example.org");
    assert!(matches!(cache.get_or_reserve("example.org"), CacheDecision::Mint));
}

#[test]
fn flush_empties_the_cache() {
    let mut cache = CertCache::new();
    assert!(matches!(cache.get_or_reserve("example.org"), CacheDecision::Mint));
    cache.fulfill("example.org", leaf("example.org"));
    cache.flush();
    assert!(matches!(cache.get_or_reserve("example.org"), CacheDecision::Mint));
}

#[test]
fn leaf_params_for_connect_host() {
    let now: u64 = 1_700_000_000;
    let p = leaf_params("example.org", now);
    assert_eq!(p.common_name, "example.org");
    assert_eq!(p.san_dns, "DNS:example.org");
    assert_eq!(p.not_before, now - 60);
    assert_eq!(p.not_after, now + 365 * 86400);
    assert!(p.not_after - p.not_before >= 364 * 86400);
}

#[test]
fn overlong_hostname_gets_fallback_common_name() {
    let host = "a".repeat(65);
    let p = leaf_params(&host, 1_700_000_000);
    assert_eq!(p.common_name, "cn_too_long.local");
    assert_eq!(p.san_dns, format!("DNS:{}", host));
}

#[test]
fn reload_keeps_cache_only_when_ca_material_is_unchanged() {
    assert!(reload_keeps_cache("c", "k", "c", "k"));
    assert!(!reload_keeps_cache("c", "k", "c2", "k"));
    assert!(!reload_keeps_cache("c", "k", "c", "k2"));
}

#[test]
fn der_chain_splits_into_its_certificates() {
    // Two minimal SEQUENCE elements, one short form and one long form.
    let first = vec![0x30, 0x03, 1, 2, 3];
    let second = vec![0x30, 0x81, 0x02, 9, 9];
    let mut chain = first.clone();
    chain.extend(second.clone());
    assert_eq!(der_certificates(&chain), vec![first.clone(), second]);
    // A truncated trailer is dropped, the whole elements kept.
    let mut truncated = first.clone();
    truncated.extend(vec![0x30, 0x10, 0]);
    assert_eq!(der_certificates(&truncated), vec![first]);
    // Garbage yields nothing.
    assert!(der_certificates(&vec![0x02, 0x01, 0x00]).is_empty());
}

#[test]
fn real_der_certificates_round_trip_through_the_splitter() {
    let rsa = openssl::rsa::Rsa::generate(2048).unwrap();
    let pkey = openssl::pkey::PKey::from_rsa(rsa).unwrap();
    let mut name = openssl::x509::X509NameBuilder::new().unwrap();
    name.append_entry_by_text("CN", "chain test").unwrap();
    let name = name.build();
    let mut builder = openssl::x509::X509::builder().unwrap();
    builder.set_version(2).unwrap();
    builder.set_subject_name(&name).unwrap();
    builder.set_issuer_name(&name).unwrap();
    builder.set_pubkey(&pkey).unwrap();
    builder.set_not_before(&openssl::asn1::Asn1Time::days_from_now(0).unwrap()).unwrap();
    builder.set_not_after(&openssl::asn1::Asn1Time::days_from_now(1).unwrap()).unwrap();
    builder.sign(&pkey, openssl::hash::MessageDigest::sha256()).unwrap();
    let der = builder.build().to_der().unwrap();
    let mut chain = der.clone();
    chain.extend(der.clone());
    assert_eq!(der_certificates(&chain), vec![der.clone(), der]);
}

#[test]
fn base64_matches_known_vectors() {
    assert_eq!(base64_encode(&Vec::new()), "");
    assert_eq!(base64_encode(&b"f".to_vec()), "Zg==");
    assert_eq!(base64_encode(&b"fo".to_vec()), "Zm8=");
    assert_eq!(base64_encode(&b"foo".to_vec()), "Zm9v");
    assert_eq!(base64_encode(&b"foobar".to_vec()), "Zm9vYmFy");
    assert_eq!(base64_encode(&b"window.x=1;".to_vec()), "d2luZG93Lng9MTs=");
}
