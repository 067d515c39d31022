use base64::Engine;
use preprintd::doh::{
    addresses_of, answer_record, answer_records, ech_config, ech_config_list, min_a_record_ttl, AnswerRecord, DohAnswer, DohCache, DohResolver,
    DohResponse, EchError, IpAddress, A_RECORD,
};

const SEC: u64 = 1_000_000_000;

fn v4(a: u8, b: u8, c: u8, d: u8) -> IpAddress {
    IpAddress::V4([a, b, c, d])
}

fn answer(record_type: u16, ttl: u64, address: Option<IpAddress>) -> AnswerRecord {
    AnswerRecord { record_type, ttl, address }
}

fn https_reply(data: &[&str]) -> DohResponse {
    DohResponse {
        answer: Some(
            data.iter()
                .map(|d| DohAnswer { record_type: 65, ttl: 300, data: d.to_string() })
                .collect(),
        ),
    }
}

#[test]
fn resolver_new() {
    let _r: DohResolver = DohResolver::new();
}

#[test]
fn addresses_keep_a_records_in_order() {
    let answers = vec![
        answer(5, 60, None),
        answer(A_RECORD, 300, Some(v4(1, 2, 3, 4))),
        answer(28, 30, Some(IpAddress::V6([0; 16]))),
        answer(A_RECORD, 120, None),
        answer(A_RECORD, 200, Some(v4(5, 6, 7, 8))),
    ];
    assert_eq!(addresses_of(&answers), vec![v4(1, 2, 3, 4), v4(5, 6, 7, 8)]);
    assert_eq!(min_a_record_ttl(&answers), Some(120));
}

#[test]
fn min_ttl_needs_an_a_record() {
    let answers = vec![answer(5, 60, None), answer(28, 30, None)];
    assert_eq!(min_a_record_ttl(&answers), None);
    assert_eq!(min_a_record_ttl(&Vec::new()), None);
    assert_eq!(addresses_of(&answers), Vec::<IpAddress>::new());
}

#[test]
fn lookup_of_unknown_host_is_none() {
    let mut c = DohCache::new();
    assert_eq!(c.lookup("example.com", 0), None);
}

#[test]
fn lookup_after_store_within_ttl() {
    let mut c = DohCache::new();
    c.store("example.com", vec![v4(1, 1, 1, 1)], 60, 10 * SEC);
    assert_eq!(c.lookup("example.com", 10 * SEC), Some(vec![v4(1, 1, 1, 1)]));
    assert_eq!(c.lookup("example.com", 70 * SEC), Some(vec![v4(1, 1, 1, 1)]));
    assert_eq!(c.lookup("example.com", 5 * SEC), Some(vec![v4(1, 1, 1, 1)]));
}

#[test]
fn lookup_after_expiry_drops_the_entry() {
    let mut c = DohCache::new();
    c.store("example.com", vec![v4(1, 1, 1, 1)], 60, 10 * SEC);
    assert_eq!(c.lookup("example.com", 70 * SEC + 1), None);
    assert_eq!(c.lookup("example.com", 11 * SEC), None);
}

#[test]
fn store_replaces_and_keeps_other_hosts() {
    let mut c = DohCache::new();
    c.store("a.example", vec![v4(1, 1, 1, 1)], 60, 0);
    c.store("b.example", vec![v4(2, 2, 2, 2)], 60, 0);
    c.store("a.example", vec![v4(3, 3, 3, 3), v4(4, 4, 4, 4)], 5, SEC);
    assert_eq!(c.lookup("a.example", 2 * SEC), Some(vec![v4(3, 3, 3, 3), v4(4, 4, 4, 4)]));
    assert_eq!(c.lookup("b.example", 2 * SEC), Some(vec![v4(2, 2, 2, 2)]));
    assert_eq!(c.lookup("a.example", 7 * SEC), None);
    assert_eq!(c.lookup("b.example", 7 * SEC), Some(vec![v4(2, 2, 2, 2)]));
}

#[test]
fn zero_ttl_serves_only_at_the_same_instant() {
    let mut c = DohCache::new();
    c.store("z.example", vec![v4(9, 9, 9, 9)], 0, 100);
    assert_eq!(c.lookup("z.example", 100), Some(vec![v4(9, 9, 9, 9)]));
    assert_eq!(c.lookup("z.example", 101), None);
}

#[test]
fn record_answers_caches_under_min_ttl() {
    let mut c = DohCache::new();
    let answers = vec![
        answer(A_RECORD, 300, Some(v4(1, 2, 3, 4))),
        answer(A_RECORD, 30, None),
    ];
    assert_eq!(c.record_answers("h.example", &answers, 0), vec![v4(1, 2, 3, 4)]);
    assert_eq!(c.lookup("h.example", 30 * SEC), Some(vec![v4(1, 2, 3, 4)]));
    assert_eq!(c.lookup("h.example", 31 * SEC), None);
}

#[test]
fn record_answers_without_addresses_caches_nothing() {
    let mut c = DohCache::new();
    let answers = vec![answer(A_RECORD, 300, None), answer(28, 300, Some(IpAddress::V6([1; 16])))];
    assert_eq!(c.record_answers("h.example", &answers, 0), Vec::<IpAddress>::new());
    assert_eq!(c.lookup("h.example", 0), None);
}

#[test]
fn ech_config_missing_answers() {
    assert_eq!(ech_config_list(&DohResponse { answer: None }), Err(EchError::MissingAnswers));
    assert_eq!(ech_config_list(&https_reply(&[])), Err(EchError::MissingAnswers));
}

#[test]
fn ech_config_missing_parameter() {
    assert_eq!(
        ech_config_list(&https_reply(&["1 . alpn=\"h3,h2\" ipv4hint=1.2.3.4"])),
        Err(EchError::MissingEchConfig)
    );
    assert_eq!(
        ech_config_list(&https_reply(&["1 . alpn=h2", "1 . ech=AEX+"])),
        Err(EchError::MissingEchConfig)
    );
}

#[test]
fn ech_config_invalid_base64() {
    assert_eq!(ech_config_list(&https_reply(&["1 . ech=%%%"])), Err(EchError::InvalidBase64));
}

#[test]
fn ech_config_decoded() {
    assert_eq!(
        ech_config_list(&https_reply(&["1 . alpn=\"h3,h2\" ech=AEX+/w== ipv6hint=::1"])),
        Ok(vec![0x00, 0x45, 0xfe, 0xff])
    );
}

#[test]
fn answers_parse_to_records() {
    let answers = vec![
        DohAnswer { record_type: A_RECORD, ttl: 60, data: "93.184.216.34".to_string() },
        DohAnswer { record_type: 5, ttl: 30, data: "alias.example.".to_string() },
        DohAnswer { record_type: A_RECORD, ttl: 90, data: "not-an-ip".to_string() },
    ];
    let records = answer_records(&answers);
    assert_eq!(records.len(), 3);
    assert_eq!(records[0].address, Some(v4(93, 184, 216, 34)));
    assert_eq!(records[1].address, None);
    assert_eq!(records[2].address, None);
    assert_eq!(records[2].ttl, 90);
    assert_eq!(answer_record(&answers[0]).record_type, A_RECORD);
    assert_eq!(addresses_of(&records), vec![v4(93, 184, 216, 34)]);
    assert_eq!(min_a_record_ttl(&records), Some(60));
}

#[test]
fn ipv6_answer_data_is_served() {
    let answers = vec![
        DohAnswer { record_type: A_RECORD, ttl: 45, data: "::1".to_string() },
        DohAnswer { record_type: A_RECORD, ttl: 120, data: "10.0.0.7".to_string() },
    ];
    let records = answer_records(&answers);
    let mut loopback = [0u8; 16];
    loopback[15] = 1;
    assert_eq!(records[0].address, Some(IpAddress::V6(loopback)));
    let mut c = DohCache::new();
    let served = c.record_answers("six.example", &records, 0);
    assert_eq!(served, vec![IpAddress::V6(loopback), v4(10, 0, 0, 7)]);
    assert_eq!(c.lookup("six.example", 45_000_000_000), Some(served));
}

/// An ECH configuration list holding one version-0xfe0d configuration for
/// DHKEM(X25519, HKDF-SHA256) with HKDF-SHA256 and AES-128-GCM.
fn x25519_aes128_config_list() -> Vec<u8> {
    let mut contents: Vec<u8> = vec![0x01, 0x00, 0x20, 0x00, 0x20];
    contents.extend_from_slice(&[0x11; 32]);
    contents.extend_from_slice(&[0x00, 0x04, 0x00, 0x01, 0x00, 0x01, 0x00, 0x0b]);
    contents.extend_from_slice(b"example.com");
    contents.extend_from_slice(&[0x00, 0x00]);
    let mut config: Vec<u8> = vec![0xfe, 0x0d, 0x00, contents.len() as u8];
    config.extend_from_slice(&contents);
    let mut list: Vec<u8> = vec![0x00, config.len() as u8];
    list.extend_from_slice(&config);
    list
}

#[test]
fn ech_config_errors_follow_the_list() {
    assert!(matches!(ech_config(&DohResponse { answer: None }), Err(EchError::MissingAnswers)));
    assert!(matches!(ech_config(&https_reply(&["1 . alpn=h2"])), Err(EchError::MissingEchConfig)));
    assert!(matches!(ech_config(&https_reply(&["1 . ech=%%%"])), Err(EchError::InvalidBase64)));
    assert!(matches!(ech_config(&https_reply(&["1 . ech=AEX+/w=="])), Err(EchError::UnsupportedConfig)));
}

#[test]
fn ech_config_accepts_a_supported_list() {
    let list = x25519_aes128_config_list();
    assert_eq!(list.len(), 64);
    let text = format!("1 . alpn=h2 ech={}", base64::engine::general_purpose::STANDARD.encode(&list));
    assert_eq!(ech_config_list(&https_reply(&[text.as_str()])), Ok(list));
    assert!(ech_config(&https_reply(&[text.as_str()])).is_ok());
}
