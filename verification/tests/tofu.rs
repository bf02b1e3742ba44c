use yagc::tofu::{fingerprint, KnownHost, StoredHosts, TofuResult, TofuStore, TofuVerifier};

fn s(text: &str) -> String {
    text.to_string()
}

fn empty_store() -> TofuStore {
    TofuStore::new(s("known_hosts.json")).unwrap()
}

#[test]
fn store_path_must_end_with_json() {
    assert_eq!(TofuStore::new(s("known_hosts.txt")).unwrap_err(), "Tofu store path must end with .json");
    assert_eq!(TofuStore::new(s("json")).unwrap_err(), "Tofu store path must end with .json");
    assert_eq!(TofuStore::new(s("")).unwrap_err(), "Tofu store path must end with .json");
    assert_eq!(TofuStore::new(s("a.json.bak")).unwrap_err(), "Tofu store path must end with .json");
    assert!(TofuStore::new(s(".json")).is_ok());
    let store = TofuStore::new(s("dir/known_hosts.json")).unwrap();
    assert_eq!(store.path(), "dir/known_hosts.json");
    assert!(store.known_hosts().is_empty());
}

#[test]
fn store_with_hosts_read_before() {
    let hosts = vec![
        KnownHost { hostname: s("a.example"), fingerprint: s("aa") },
        KnownHost { hostname: s("b.example"), fingerprint: s("bb") },
    ];
    let store = TofuStore::with_known_hosts(s("hosts.json"), hosts.clone()).unwrap();
    assert_eq!(store.known_hosts(), &hosts);
    assert_eq!(store.verify_host(&s("a.example"), &s("aa")), TofuResult::Match);
    assert_eq!(store.verify_host(&s("b.example"), &s("aa")), TofuResult::Mismatch);
    assert_eq!(store.verify_host(&s("c.example"), &s("aa")), TofuResult::Unknown);
    assert!(TofuStore::with_known_hosts(s("hosts.toml"), hosts).is_err());
}

#[test]
fn unknown_host_is_learned_then_matches() {
    let mut store = empty_store();
    let host = s("example.com");
    assert_eq!(store.verify_or_learn_host(&host, &s("abcd"), Ok(())), Ok(TofuResult::New));
    assert_eq!(store.verify_or_learn_host(&host, &s("abcd"), Ok(())), Ok(TofuResult::Match));
    assert_eq!(store.verify_or_learn_host(&host, &s("ef01"), Ok(())), Ok(TofuResult::Mismatch));
    assert_eq!(
        store.known_hosts(),
        &vec![KnownHost { hostname: s("example.com"), fingerprint: s("abcd") }]
    );
    assert_eq!(store.verify_or_learn_host(&host, &s("abcd"), Ok(())), Ok(TofuResult::Match));
}

#[test]
fn known_host_is_judged_even_if_nothing_can_be_saved() {
    let mut store = empty_store();
    let host = s("example.com");
    store.learn_host(host.clone(), s("abcd"));
    assert_eq!(store.verify_or_learn_host(&host, &s("abcd"), Err(s("disk full"))), Ok(TofuResult::Match));
    assert_eq!(store.verify_or_learn_host(&host, &s("0000"), Err(s("disk full"))), Ok(TofuResult::Mismatch));
}

#[test]
fn host_that_could_not_be_saved_is_not_kept() {
    let mut store = empty_store();
    let host = s("example.com");
    assert_eq!(store.verify_or_learn_host(&host, &s("abcd"), Err(s("disk full"))), Err(s("disk full")));
    assert!(store.known_hosts().is_empty());
    assert_eq!(store.verify_host(&host, &s("abcd")), TofuResult::Unknown);
    assert_eq!(store.verify_or_learn_host(&host, &s("ef01"), Ok(())), Ok(TofuResult::New));
    assert_eq!(store.verify_host(&host, &s("ef01")), TofuResult::Match);
}

#[test]
fn hosts_are_pinned_one_by_one() {
    let mut store = empty_store();
    assert_eq!(store.verify_or_learn_host(&s("a.example"), &s("aa"), Ok(())), Ok(TofuResult::New));
    assert_eq!(store.verify_or_learn_host(&s("b.example"), &s("bb"), Ok(())), Ok(TofuResult::New));
    assert_eq!(store.verify_host(&s("a.example"), &s("aa")), TofuResult::Match);
    assert_eq!(store.verify_host(&s("a.example"), &s("bb")), TofuResult::Mismatch);
    assert_eq!(store.verify_host(&s("b.example"), &s("bb")), TofuResult::Match);
    assert_eq!(store.known_hosts().len(), 2);
}

#[test]
fn learning_again_replaces_the_fingerprint() {
    let mut store = empty_store();
    store.learn_host(s("a.example"), s("aa"));
    store.learn_host(s("b.example"), s("bb"));
    store.learn_host(s("a.example"), s("cc"));
    assert_eq!(store.verify_host(&s("a.example"), &s("cc")), TofuResult::Match);
    assert_eq!(store.verify_host(&s("a.example"), &s("aa")), TofuResult::Mismatch);
    assert_eq!(store.verify_host(&s("b.example"), &s("bb")), TofuResult::Match);
    assert_eq!(store.known_hosts().len(), 2);
}

#[test]
fn fingerprint_is_sha256_in_lowercase_hex() {
    assert_eq!(
        fingerprint(b""),
        "e3b0c44298fc1c149afbf4c8996fb92427ae41e4649b934ca495991b7852b855"
    );
    assert_eq!(
        fingerprint(b"abc"),
        "ba7816bf8f01cfea414140de5dae2223b00361a396177a9cb410ff61f20015ad"
    );
}

#[test]
fn verifier_accepts_a_new_host_and_then_only_its_certificate() {
    let mut verifier = TofuVerifier::new(empty_store());
    let name = s("example.com");
    assert!(verifier.verify_server_cert(Some(&name), b"certificate one", Ok(())));
    assert_eq!(
        verifier.store().known_hosts(),
        &vec![KnownHost { hostname: s("example.com"), fingerprint: fingerprint(b"certificate one") }]
    );
    assert!(verifier.verify_server_cert(Some(&name), b"certificate one", Ok(())));
    assert!(!verifier.verify_server_cert(Some(&name), b"certificate two", Ok(())));
    assert!(verifier.verify_server_cert(Some(&name), b"certificate one", Err(s("read-only"))));
    assert_eq!(verifier.store().known_hosts().len(), 1);
}

#[test]
fn verifier_rejects_what_has_no_dns_name() {
    let mut verifier = TofuVerifier::new(empty_store());
    assert!(!verifier.verify_server_cert(None, b"certificate", Ok(())));
    assert!(verifier.store().known_hosts().is_empty());
}

#[test]
fn verifier_rejects_a_host_that_could_not_be_saved() {
    let mut verifier = TofuVerifier::new(empty_store());
    let name = s("example.com");
    assert!(!verifier.verify_server_cert(Some(&name), b"certificate", Err(s("disk full"))));
    assert!(verifier.store().known_hosts().is_empty());
    assert!(!verifier.decide(Some(&name), &s("abcd"), Err(s("disk full"))));
    assert!(verifier.decide(Some(&name), &s("abcd"), Ok(())));
    assert!(!verifier.decide(Some(&name), &s("abce"), Ok(())));
    assert!(!verifier.decide(None, &s("abcd"), Ok(())));
}

#[test]
fn every_signature_is_approved() {
    assert!(TofuVerifier::verify_tls12_signature(b"message", b"certificate", b"signature"));
    assert!(TofuVerifier::verify_tls13_signature(b"message", b"certificate", b""));
    assert!(TofuVerifier::verify_tls13_signature(b"", b"", b""));
}

#[test]
fn signature_schemes_by_number() {
    assert_eq!(
        TofuVerifier::supported_verify_schemes(),
        vec![0x0401, 0x0501, 0x0601, 0x0403, 0x0503, 0x0603, 0x0807, 0x0808]
    );
    assert_eq!(yagc::tofu::ED25519, 0x0807);
}

#[test]
fn of_two_entries_for_a_host_the_later_counts() {
    let hosts = vec![
        KnownHost { hostname: s("a.example"), fingerprint: s("aa") },
        KnownHost { hostname: s("b.example"), fingerprint: s("bb") },
        KnownHost { hostname: s("a.example"), fingerprint: s("cc") },
    ];
    let store = TofuStore::with_known_hosts(s("hosts.json"), hosts).unwrap();
    assert_eq!(store.verify_host(&s("a.example"), &s("cc")), TofuResult::Match);
    assert_eq!(store.verify_host(&s("a.example"), &s("aa")), TofuResult::Mismatch);
    assert_eq!(
        store.known_hosts(),
        &vec![
            KnownHost { hostname: s("a.example"), fingerprint: s("cc") },
            KnownHost { hostname: s("b.example"), fingerprint: s("bb") },
        ]
    );
}

#[test]
fn store_to_save_holds_the_unknown_host() {
    let mut store = empty_store();
    store.learn_host(s("a.example"), s("aa"));
    let next = store.to_persist(&s("b.example"), &s("bb")).unwrap();
    assert_eq!(next.path(), "known_hosts.json");
    assert_eq!(
        next.known_hosts(),
        &vec![
            KnownHost { hostname: s("a.example"), fingerprint: s("aa") },
            KnownHost { hostname: s("b.example"), fingerprint: s("bb") },
        ]
    );
    // the store itself is as it was
    assert_eq!(store.known_hosts().len(), 1);
    // what was saved is what is learned
    assert_eq!(store.verify_or_learn_host(&s("b.example"), &s("bb"), Ok(())), Ok(TofuResult::New));
    assert_eq!(store.known_hosts(), next.known_hosts());
}

#[test]
fn nothing_to_save_for_a_known_host() {
    let mut store = empty_store();
    store.learn_host(s("a.example"), s("aa"));
    assert!(store.to_persist(&s("a.example"), &s("aa")).is_none());
    assert!(store.to_persist(&s("a.example"), &s("zz")).is_none());
}

#[test]
fn duplicate_of_a_store() {
    let mut store = empty_store();
    store.learn_host(s("a.example"), s("aa"));
    let copy = store.duplicate();
    assert_eq!(copy.path(), store.path());
    assert_eq!(copy.known_hosts(), store.known_hosts());
}

#[test]
fn verifier_names_the_store_to_save() {
    let mut verifier = TofuVerifier::new(empty_store());
    let name = s("example.com");
    assert!(verifier.to_persist(None, b"certificate").is_none());
    let next = verifier.to_persist(Some(&name), b"certificate").unwrap();
    assert_eq!(
        next.known_hosts(),
        &vec![KnownHost { hostname: s("example.com"), fingerprint: fingerprint(b"certificate") }]
    );
    assert!(verifier.store().known_hosts().is_empty());
    assert!(verifier.verify_server_cert(Some(&name), b"certificate", Ok(())));
    assert_eq!(verifier.store().known_hosts(), next.known_hosts());
    assert!(verifier.to_persist(Some(&name), b"certificate").is_none());
    assert!(verifier.to_persist(Some(&name), b"another").is_none());
}

#[test]
fn store_is_loaded_from_what_was_found() {
    let store = TofuStore::load(s("hosts.json"), StoredHosts::Missing).unwrap();
    assert!(store.known_hosts().is_empty());
    assert_eq!(store.path(), "hosts.json");

    let hosts = vec![KnownHost { hostname: s("a.example"), fingerprint: s("aa") }];
    let store = TofuStore::load(s("hosts.json"), StoredHosts::Hosts(hosts.clone())).unwrap();
    assert_eq!(store.known_hosts(), &hosts);
    assert_eq!(store.path(), "hosts.json");
}

#[test]
fn corrupt_store_is_an_error_and_no_empty_store() {
    assert_eq!(
        TofuStore::load(s("hosts.json"), StoredHosts::Unreadable(s("expected value at line 1"))).unwrap_err(),
        "expected value at line 1"
    );
    assert_eq!(
        TofuStore::load(s("hosts.txt"), StoredHosts::Unreadable(s("expected value"))).unwrap_err(),
        "Tofu store path must end with .json"
    );
    assert_eq!(
        TofuStore::load(s("hosts.txt"), StoredHosts::Missing).unwrap_err(),
        "Tofu store path must end with .json"
    );
}
