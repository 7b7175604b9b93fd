use privaxy::configuration::ca::{Ca, CaError, PemSource, StoreOutcome, validate_ca_pems};
use privaxy::configuration::filter::{
    calc_filter_filename, calculate_sha256_hex, DefaultFilters, Filter, FilterGroup,
};
use privaxy::configuration::network::{check_ipv4, NetworkConfig, NetworkConfigError};
use privaxy::configuration::updater::{
    assemble_filter_texts, filter_content_decision, sweep_content_decision, ContentOutcome,
    ReadResult, SweepOutcome,
};
use privaxy::configuration::{deserialize_lines, Configuration, ConfigurationError};
use privaxy::exclusions::LocalExclusionStore;

fn network(bind: &str, proxy: u16, web: u16) -> NetworkConfig {
    NetworkConfig {
        bind_addr: bind.to_string(),
        proxy_port: proxy,
        web_port: web,
        tls: false,
        tls_cert_path: None,
        tls_key_path: None,
        listen_url: None,
    }
}

fn sample_configuration() -> Configuration {
    Configuration {
        exclusions: Vec::new(),
        custom_filters: Vec::new(),
        ca: Ca {
            ca_certificate: None,
            ca_private_key: None,
            ca_certificate_path: None,
            ca_private_key_path: None,
        },
        network: network("127.0.0.1", 8100, 8200),
        filters: vec![Filter {
            enabled: false,
            title: "EasyList".to_string(),
            group: FilterGroup::Ads,
            file_name: "abc.txt".to_string(),
            url: "https://easylist.to/easylist/easylist.txt".to_string(),
        }],
    }
}

#[test]
fn sha256_hex_of_known_inputs() {
    assert_eq!(
        calculate_sha256_hex(""),
        "e3b0c44298fc1c149afbf4c8996fb92427ae41e4649b934ca495991b7852b855"
    );
    assert_eq!(
        calc_filter_filename("https://easylist.to/easylist/easylist.txt"),
        "d830652ca9effb01098cac7485cc98820432c4174970389c190cc36ada100f82.txt"
    );
}

#[test]
fn default_filters_are_content_addressed() {
    let list = DefaultFilters::new().list();
    assert_eq!(list.len(), 54);
    let easylist = list.iter().find(|f| f.url == "https://easylist.to/easylist/easylist.txt");
    let easylist = easylist.expect("the ads group carries EasyList");
    assert_eq!(
        easylist.file_name,
        "d830652ca9effb01098cac7485cc98820432c4174970389c190cc36ada100f82.txt"
    );
    assert!(easylist.enabled_by_default);
    assert_eq!(easylist.group, "ads");
    let converted = Filter::from(easylist.clone());
    assert_eq!(converted.group, FilterGroup::Ads);
    assert!(converted.enabled);
}

#[test]
fn lines_are_trimmed_and_empties_dropped() {
    let lines = deserialize_lines("  a \n\n\t\nb\r\n  c  \n");
    assert_eq!(lines, vec!["a".to_string(), "b".to_string(), "c".to_string()]);
}

#[test]
fn set_custom_filters_replaces_the_rules() {
    let mut config = sample_configuration();
    config.set_custom_filters("||x.example^\n\n||y.example^\n");
    assert_eq!(config.custom_filters, vec!["||x.example^".to_string(), "||y.example^".to_string()]);
}

#[test]
fn set_exclusions_dedups_and_publishes_the_snapshot() {
    let mut config = sample_configuration();
    let mut store = LocalExclusionStore::new(Vec::new());
    config.set_exclusions("a.example\nb.example\na.example\n", &mut store);
    assert_eq!(config.exclusions, vec!["a.example".to_string(), "b.example".to_string()]);
    assert!(store.matches("a.example"));
    assert!(store.matches("b.example"));
    assert!(!store.matches("c.example"));
}

#[test]
fn filter_status_toggles_by_file_name() {
    let mut config = sample_configuration();
    config.set_filter_enabled_status("abc.txt", true);
    assert!(config.filters[0].enabled);
    config.set_filter_enabled_status("missing.txt", false);
    assert!(config.filters[0].enabled);
    config.set_filter_enabled_status("abc.txt", false);
    assert!(!config.filters[0].enabled);
}

#[test]
fn enabled_filters_are_the_enabled_subset() {
    let mut config = sample_configuration();
    assert!(config.get_enabled_filters().is_empty());
    config.set_filter_enabled_status("abc.txt", true);
    let enabled = config.get_enabled_filters();
    assert_eq!(enabled.len(), 1);
    assert_eq!(enabled[0].title, "EasyList");
}

#[test]
fn add_filter_pushes_on_success_and_disables_on_failure() {
    let mut config = sample_configuration();
    let mut good = Filter {
        enabled: true,
        title: "Extra".to_string(),
        group: FilterGroup::Privacy,
        file_name: "extra.txt".to_string(),
        url: "https://extra.example/list.txt".to_string(),
    };
    assert!(config.add_filter(&mut good, true).is_ok());
    assert_eq!(config.filters.len(), 2);
    let mut bad = good.clone();
    let r = config.add_filter(&mut bad, false);
    assert!(matches!(r, Err(ConfigurationError::FilterError(_))));
    assert!(!bad.enabled);
    assert_eq!(config.filters.len(), 2);
}

#[test]
fn network_validation_reports_the_first_failure() {
    let mut config = sample_configuration();
    let r = config.set_network_settings(&network("127.0.0.1", 0, 8200));
    assert!(matches!(
        r,
        Err(ConfigurationError::NetworkConfigError(NetworkConfigError::ProxyPortError(_)))
    ));
    let r = config.set_network_settings(&network("127.0.0.1", 8100, 0));
    assert!(matches!(
        r,
        Err(ConfigurationError::NetworkConfigError(NetworkConfigError::WebPortError(_)))
    ));
    let r = config.set_network_settings(&network("127.0.0.1", 8100, 8100));
    assert!(matches!(
        r,
        Err(ConfigurationError::NetworkConfigError(NetworkConfigError::PortCollisionError(_)))
    ));
    let r = config.set_network_settings(&network("not-an-ip", 8100, 8200));
    assert!(matches!(
        r,
        Err(ConfigurationError::NetworkConfigError(NetworkConfigError::BindAddressError(_)))
    ));
    assert_eq!(config.network.proxy_port, 8100);
    let r = config.set_network_settings(&network("10.0.0.2", 9100, 9200));
    assert!(r.is_ok());
    assert_eq!(config.network.bind_addr, "10.0.0.2");
}

#[test]
fn dotted_quad_grammar() {
    assert!(check_ipv4("0.0.0.0"));
    assert!(check_ipv4("255.255.255.255"));
    assert!(check_ipv4("192.168.1.10"));
    assert!(!check_ipv4("256.1.1.1"));
    assert!(!check_ipv4("01.2.3.4"));
    assert!(!check_ipv4("1.2.3"));
    assert!(!check_ipv4("1.2.3.4.5"));
    assert!(!check_ipv4("1..2.3"));
    assert!(!check_ipv4("a.b.c.d"));
    assert!(!check_ipv4(""));
}

#[test]
fn filter_content_decisions() {
    let r = filter_content_decision(ReadResult::Found("cached".to_string()), None);
    assert!(matches!(r, ContentOutcome::Use(ref s, false) if s == "cached"));
    let r = filter_content_decision(ReadResult::NotFound, Some("fetched".to_string()));
    assert!(matches!(r, ContentOutcome::Use(ref s, true) if s == "fetched"));
    let r = filter_content_decision(ReadResult::NotFound, None);
    assert!(matches!(r, ContentOutcome::Skip));
    let r = filter_content_decision(ReadResult::ReadError("io".to_string()), None);
    assert!(matches!(r, ContentOutcome::Fail(ref e) if e == "io"));
}

#[test]
fn periodic_sweep_refetches_every_list() {
    let r = sweep_content_decision(Some("fresh".to_string()), Some("stale".to_string()));
    assert!(matches!(r, SweepOutcome::UseAndWrite(ref s) if s == "fresh"));
    let r = sweep_content_decision(Some("fresh".to_string()), None);
    assert!(matches!(r, SweepOutcome::UseAndWrite(ref s) if s == "fresh"));
    let r = sweep_content_decision(None, Some("stale".to_string()));
    assert!(matches!(r, SweepOutcome::UseCached(ref s) if s == "stale"));
    let r = sweep_content_decision(None, None);
    assert!(matches!(r, SweepOutcome::Skip));
}

#[test]
fn sweep_assembles_retrieved_lists_then_custom_rules() {
    let texts = assemble_filter_texts(
        vec![Some("one".to_string()), None, Some("two".to_string())],
        &vec!["custom".to_string()],
    );
    assert_eq!(texts, vec!["one".to_string(), "two".to_string(), "custom".to_string()]);
}

#[test]
fn ca_sources_prefer_paths() {
    let ca = Ca {
        ca_certificate: Some("inline-cert".to_string()),
        ca_private_key: None,
        ca_certificate_path: Some("/etc/ca.pem".to_string()),
        ca_private_key_path: None,
    };
    assert_eq!(ca.certificate_source(), PemSource::Path("/etc/ca.pem".to_string()));
    assert_eq!(ca.private_key_source(), PemSource::Missing);
    let inline_only = Ca { ca_certificate_path: None, ..ca };
    assert_eq!(inline_only.certificate_source(), PemSource::Inline("inline-cert".to_string()));
}

#[test]
fn storing_ca_material_honours_paths() {
    let mut ca = Ca {
        ca_certificate: None,
        ca_private_key: None,
        ca_certificate_path: Some("/etc/ca.pem".to_string()),
        ca_private_key_path: None,
    };
    let r = ca.set_ca_certificate("PEM");
    assert_eq!(r, StoreOutcome::WriteFile("/etc/ca.pem".to_string()));
    assert!(ca.ca_certificate.is_none());
    let r = ca.set_ca_private_key("KEYPEM");
    assert_eq!(r, StoreOutcome::StoredInline);
    assert_eq!(ca.ca_private_key.as_deref(), Some("KEYPEM"));
}

fn generate_ca() -> (String, String) {
    let rsa = openssl::rsa::Rsa::generate(2048).unwrap();
    let pkey = openssl::pkey::PKey::from_rsa(rsa).unwrap();
    let mut name = openssl::x509::X509NameBuilder::new().unwrap();
    name.append_entry_by_text("CN", "test root").unwrap();
    let name = name.build();
    let mut builder = openssl::x509::X509::builder().unwrap();
    builder.set_version(2).unwrap();
    builder.set_subject_name(&name).unwrap();
    builder.set_issuer_name(&name).unwrap();
    builder.set_pubkey(&pkey).unwrap();
    builder.set_not_before(&openssl::asn1::Asn1Time::days_from_now(0).unwrap()).unwrap();
    builder.set_not_after(&openssl::asn1::Asn1Time::days_from_now(1).unwrap()).unwrap();
    builder.sign(&pkey, openssl::hash::MessageDigest::sha256()).unwrap();
    let cert_pem = String::from_utf8(builder.build().to_pem().unwrap()).unwrap();
    let key_pem = String::from_utf8(pkey.private_key_to_pem_pkcs8().unwrap()).unwrap();
    (cert_pem, key_pem)
}

#[test]
fn matching_ca_material_validates() {
    let (cert, key) = generate_ca();
    assert!(validate_ca_pems(&cert, &key).is_ok());
}

#[test]
fn garbage_certificate_is_rejected_first() {
    let r = validate_ca_pems("not pem", "not pem either");
    assert!(matches!(r, Err(ConfigurationError::CaError(CaError::CaCertificateNotFound(_)))));
}

#[test]
fn garbage_key_is_rejected_second() {
    let (cert, _) = generate_ca();
    let r = validate_ca_pems(&cert, "not pem");
    assert!(matches!(r, Err(ConfigurationError::CaError(CaError::CaPrivateKeyNotFound(_)))));
}

#[test]
fn mismatched_key_pair_is_rejected() {
    let (cert, _) = generate_ca();
    let (_, other_key) = generate_ca();
    let r = validate_ca_pems(&cert, &other_key);
    assert!(matches!(r, Err(ConfigurationError::CaError(CaError::PrivateKeyMismatch))));
}

#[test]
fn default_configuration_shape() {
    let config = Configuration::new_default("CERT".to_string(), "KEY".to_string());
    assert!(config.exclusions.is_empty());
    assert!(config.custom_filters.is_empty());
    assert_eq!(config.ca.ca_certificate.as_deref(), Some("CERT"));
    assert_eq!(config.ca.ca_private_key.as_deref(), Some("KEY"));
    assert_eq!(config.network.bind_addr, "127.0.0.1");
    assert_eq!(config.network.proxy_port, 8100);
    assert_eq!(config.network.web_port, 8200);
    assert!(!config.network.tls);
    assert_eq!(config.filters.len(), 54);
    for f in &config.filters {
        assert!(f.file_name.ends_with(".txt"));
        assert_eq!(f.file_name.len(), 68);
    }
}

#[test]
fn network_request_conversion_keeps_paths_unset() {
    let req = privaxy::web_api::NetworkConfigRequest {
        bind_addr: "127.0.0.1".to_string(),
        proxy_port: 1,
        web_port: 2,
        tls: true,
    };
    let nc = NetworkConfig::from(req);
    assert_eq!(nc.bind_addr, "127.0.0.1");
    assert_eq!(nc.proxy_port, 1);
    assert_eq!(nc.web_port, 2);
    assert!(nc.tls);
    assert!(nc.tls_cert_path.is_none());
    assert!(nc.tls_key_path.is_none());
    assert!(nc.listen_url.is_none());
}

#[test]
fn filterlists_defaults() {
    assert_eq!(privaxy::filterlists::default_description().as_deref(), Some("No description"));
    assert!(privaxy::filterlists::default_view_url().is_none());
}
