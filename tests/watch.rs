use acm::signer::{headers, signature};
use acm::{
    address_url, fingerprint, get_acm_server, Acm, AcmGroup, Error, Ipv4Addr, WatchAction,
    WatchEvent,
};

fn group() -> AcmGroup {
    AcmGroup {
        access_key: "access".to_string(),
        secret_key: "secret".to_string(),
        namespace: "ns1".to_string(),
        group: "group1".to_string(),
    }
}

fn engine(ids: &[&str]) -> Acm {
    let ids: Vec<String> = ids.iter().map(|s| s.to_string()).collect();
    Acm::new("addr.example:8080".to_string(), group(), ids, "10.0.0.1\n").unwrap()
}

#[test]
fn resolve_takes_first_line() {
    assert_eq!(get_acm_server("1.2.3.4\nextra-garbage"), Ok(Ipv4Addr(1, 2, 3, 4)));
    assert_eq!(get_acm_server("255.0.10.200"), Ok(Ipv4Addr(255, 0, 10, 200)));
}

#[test]
fn resolve_rejects_non_address() {
    assert_eq!(
        get_acm_server("not-an-ip"),
        Err(Error::Custom("not-an-ip is not a valid ipv4 address".to_string()))
    );
    let e = get_acm_server("not-an-ip").unwrap_err();
    assert!(e.message().contains("not-an-ip"));
}

#[test]
fn resolve_rejects_malformed_octets() {
    assert!(get_acm_server("256.1.1.1").is_err());
    assert!(get_acm_server("01.2.3.4").is_err());
    assert!(get_acm_server("1.2.3").is_err());
    assert!(get_acm_server("1.2.3.4.5").is_err());
    assert!(get_acm_server("1..3.4").is_err());
    assert!(get_acm_server("1.2.3.4 ").is_err());
    assert_eq!(
        get_acm_server(""),
        Err(Error::Custom(" is not a valid ipv4 address".to_string()))
    );
    assert_eq!(get_acm_server("0.0.0.0"), Ok(Ipv4Addr(0, 0, 0, 0)));
}

#[test]
fn address_server_url() {
    assert_eq!(
        address_url("acm.aliyun.com:8080"),
        "http://acm.aliyun.com:8080/diamond-server/diamond"
    );
}

#[test]
fn new_fails_on_bad_address() {
    let r = Acm::new("h".to_string(), group(), vec!["a".to_string()], "garbage");
    assert!(matches!(r, Err(Error::Custom(_))));
}

#[test]
fn new_gives_empty_fingerprints_and_collapses_duplicates() {
    let acm = engine(&["a", "b", "a"]);
    assert_eq!(acm.fingerprint("a"), Some(String::new()));
    assert_eq!(acm.fingerprint("b"), Some(String::new()));
    assert_eq!(acm.fingerprint("c"), None);
    let a = "a\u{2}group1\u{2}\u{2}ns1\u{1}";
    let b = "b\u{2}group1\u{2}\u{2}ns1\u{1}";
    assert_eq!(acm.encode_acm_entries(), format!("{}{}", a, b));
    assert_eq!(acm.address_server(), "addr.example:8080");
}

#[test]
fn encode_single_entry() {
    let acm = engine(&["app.conf"]);
    assert_eq!(acm.encode_acm_entries(), "app.conf\u{2}group1\u{2}\u{2}ns1\u{1}");
    let form = acm.probe_form();
    assert_eq!(form.len(), 1);
    assert_eq!(form[0].0, "Probe-Modify-Request");
    assert_eq!(form[0].1, "app.conf\u{2}group1\u{2}\u{2}ns1\u{1}");
}

#[test]
fn encode_empty_table() {
    let acm = engine(&[]);
    assert_eq!(acm.encode_acm_entries(), "");
}

#[test]
fn decode_empty_is_no_change() {
    let acm = engine(&["a"]);
    assert_eq!(acm.decode_acm_entry(""), None);
    assert_eq!(acm.decode_acm_entry(""), None);
}

#[test]
fn decode_skips_mismatched_group_and_namespace() {
    let acm = engine(&["a", "b"]);
    let text = "a\u{2}other\u{2}ns1\u{1}a\u{2}group1\u{2}ns2\u{1}b\u{2}group1\u{2}ns1\u{1}";
    assert_eq!(acm.decode_acm_entry(text), Some("b".to_string()));
}

#[test]
fn decode_skips_unknown_id_and_malformed_record() {
    let acm = engine(&["a", "b"]);
    assert_eq!(acm.decode_acm_entry("zzz\u{2}group1\u{2}ns1\u{1}"), None);
    let text = "garbage\u{1}zzz\u{2}group1\u{2}ns1\u{1}a\u{2}group1\u{2}ns1";
    assert_eq!(acm.decode_acm_entry(text), Some("a".to_string()));
    assert_eq!(acm.decode_acm_entry("a\u{2}group1\u{2}ns1\u{2}x\u{1}"), None);
}

#[test]
fn decode_takes_first_valid_record() {
    let acm = engine(&["a", "b"]);
    let text = "b\u{2}group1\u{2}ns1\u{1}a\u{2}group1\u{2}ns1\u{1}";
    assert_eq!(acm.decode_acm_entry(text), Some("b".to_string()));
}

#[test]
fn end_to_end_change() {
    let mut acm = engine(&["a", "b"]);
    let step = acm.wait_for_new_config(WatchEvent::Probed(
        "a\u{2}group1\u{2}ns1\u{1}".to_string(),
    ));
    assert!(matches!(&step, WatchAction::Fetch(id) if id == "a"));
    assert_eq!(
        acm.config_query("a"),
        vec![
            ("tenant".to_string(), "ns1".to_string()),
            ("group".to_string(), "group1".to_string()),
            ("dataId".to_string(), "a".to_string()),
        ]
    );
    let step = acm.wait_for_new_config(WatchEvent::Fetched("a".to_string(), b"x=1".to_vec()));
    match step {
        WatchAction::Deliver(id, data) => {
            assert_eq!(id, "a");
            assert_eq!(data, b"x=1".to_vec());
        }
        _ => panic!("expected a delivery"),
    }
    assert_eq!(
        acm.fingerprint("a"),
        Some("a255512f9d61a6777bd5a304235bd26d".to_string())
    );
    assert_eq!(acm.fingerprint("b"), Some(String::new()));
    assert_eq!(
        acm.encode_acm_entries(),
        "a\u{2}group1\u{2}a255512f9d61a6777bd5a304235bd26d\u{2}ns1\u{1}b\u{2}group1\u{2}\u{2}ns1\u{1}"
    );
}

#[test]
fn no_change_asks_to_probe_again() {
    let mut acm = engine(&["a"]);
    assert!(matches!(
        acm.wait_for_new_config(WatchEvent::Probed(String::new())),
        WatchAction::Probe
    ));
    assert!(matches!(
        acm.wait_for_new_config(WatchEvent::Probed("b\u{2}group1\u{2}ns1\u{1}".to_string())),
        WatchAction::Probe
    ));
    assert_eq!(acm.fingerprint("a"), Some(String::new()));
}

#[test]
fn update_leaves_other_ids() {
    let mut acm = engine(&["a", "b", "c"]);
    acm.update_md5("b", b"");
    assert_eq!(acm.fingerprint("a"), Some(String::new()));
    assert_eq!(
        acm.fingerprint("b"),
        Some("d41d8cd98f00b204e9800998ecf8427e".to_string())
    );
    assert_eq!(acm.fingerprint("c"), Some(String::new()));
    acm.update_md5("zzz", b"x");
    assert_eq!(acm.fingerprint("zzz"), None);
}

#[test]
fn fingerprint_is_md5_hex() {
    assert_eq!(fingerprint(b"x=1"), "a255512f9d61a6777bd5a304235bd26d");
    assert_eq!(fingerprint(b"x=1"), fingerprint(b"x=1"));
    assert_ne!(fingerprint(b"x=1"), fingerprint(b"x=2"));
}

#[test]
fn refresh_replaces_address() {
    let mut acm = engine(&["a"]);
    let before = acm.config_url();
    assert_eq!(before, "http://10.0.0.1:8080/diamond-server/config.co");
    assert_eq!(acm.refresh_acm_server("192.168.100.7\n"), Ok(()));
    assert_eq!(acm.config_url(), "http://192.168.100.7:8080/diamond-server/config.co");
    assert_eq!(before, "http://10.0.0.1:8080/diamond-server/config.co");
}

#[test]
fn failed_refresh_keeps_address() {
    let mut acm = engine(&["a"]);
    assert!(matches!(acm.refresh_acm_server("nope"), Err(Error::Custom(_))));
    assert_eq!(acm.config_url(), "http://10.0.0.1:8080/diamond-server/config.co");
}

#[test]
fn signature_is_exact_and_deterministic() {
    let s = signature("secret", "ns1", "group1", 1700000000000);
    assert_eq!(s, "3YbW2FilxefGXgzsVmIu9g2lF+4=");
    assert_eq!(s, signature("secret", "ns1", "group1", 1700000000000));
    assert_eq!(
        signature("secret", "ns1", "group1", 1700000000001),
        "j38fhxxStFNIAhYTPiD3BCisvjM="
    );
    assert_ne!(s, signature("other", "ns1", "group1", 1700000000000));
    assert_ne!(s, signature("secret", "ns2", "group1", 1700000000000));
    assert_ne!(s, signature("secret", "ns1", "group2", 1700000000000));
}

#[test]
fn headers_carry_key_time_signature_and_timeout() {
    let h = headers(&group(), 1700000000000);
    assert_eq!(
        h,
        vec![
            ("Spas-AccessKey".to_string(), "access".to_string()),
            ("timeStamp".to_string(), "1700000000000".to_string()),
            ("Spas-Signature".to_string(), "3YbW2FilxefGXgzsVmIu9g2lF+4=".to_string()),
            ("longPullingTimeout".to_string(), "30000".to_string()),
        ]
    );
    let acm = engine(&["a"]);
    assert_eq!(acm.header(0)[1].1, "0");
}
