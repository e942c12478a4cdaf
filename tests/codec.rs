use easy_ssh::codec::{decode, encode};
use easy_ssh::profile::ServerProfile;

fn profile(name: &str, user_ip: &str, key_path: &str) -> ServerProfile {
    ServerProfile::new(name.to_string(), user_ip.to_string(), key_path.to_string())
}

#[test]
fn encode_lays_out_three_tagged_fields() {
    let bytes = encode(&profile("a", "u@h", "k"));
    let expected: Vec<u8> = vec![
        1, 1, 0, 0, 0, 0, 0, 0, 0, b'a', //
        2, 3, 0, 0, 0, 0, 0, 0, 0, b'u', b'@', b'h', //
        3, 1, 0, 0, 0, 0, 0, 0, 0, b'k',
    ];
    assert_eq!(bytes, expected);
}

#[test]
fn encode_counts_utf8_bytes() {
    let bytes = encode(&profile("é", "", ""));
    assert_eq!(&bytes[..12], &[1, 2, 0, 0, 0, 0, 0, 0, 0, 0xc3, 0xa9, 2]);
    assert_eq!(bytes.len(), 9 + 2 + 9 + 9);
}

#[test]
fn decode_returns_the_encoded_profile() {
    let p = profile("db1", "alice@10.0.0.5", "/home/alice/.ssh/id_rsa");
    let q = decode(&encode(&p)).expect("a record decodes");
    assert_eq!(q.name(), "db1");
    assert_eq!(q.user_ip(), "alice@10.0.0.5");
    assert_eq!(q.key_path(), "/home/alice/.ssh/id_rsa");
}

#[test]
fn decode_keeps_non_ascii_text() {
    let p = profile("sérveur-ß", "ünïcode@hôst", "/clé/ключ");
    let q = decode(&encode(&p)).expect("a record decodes");
    assert_eq!(q.name(), "sérveur-ß");
    assert_eq!(q.user_ip(), "ünïcode@hôst");
    assert_eq!(q.key_path(), "/clé/ключ");
}

#[test]
fn decode_keeps_empty_fields() {
    let q = decode(&encode(&profile("", "", ""))).expect("a record decodes");
    assert_eq!(q.name(), "");
    assert_eq!(q.user_ip(), "");
    assert_eq!(q.key_path(), "");
}

#[test]
fn decode_rejects_empty_input() {
    assert!(decode(&[]).is_none());
}

#[test]
fn decode_rejects_a_truncated_record() {
    let bytes = encode(&profile("a", "u@h", "k"));
    for cut in 0..bytes.len() {
        assert!(decode(&bytes[..cut]).is_none(), "cut at {}", cut);
    }
}

#[test]
fn decode_rejects_trailing_bytes() {
    let mut bytes = encode(&profile("a", "u@h", "k"));
    bytes.push(0);
    assert!(decode(&bytes).is_none());
}

#[test]
fn decode_rejects_a_wrong_tag() {
    let mut bytes = encode(&profile("a", "u@h", "k"));
    bytes[0] = 2;
    assert!(decode(&bytes).is_none());
}

#[test]
fn decode_rejects_fields_out_of_order() {
    let mut bytes = encode(&profile("a", "b", "k"));
    bytes[0] = 2;
    bytes[10] = 1;
    assert!(decode(&bytes).is_none());
}

#[test]
fn decode_rejects_a_length_past_the_end() {
    let mut bytes = encode(&profile("a", "u@h", "k"));
    bytes[1] = 200;
    assert!(decode(&bytes).is_none());
    bytes[1] = 1;
    bytes[8] = 0xff;
    assert!(decode(&bytes).is_none());
}

#[test]
fn decode_rejects_invalid_utf8() {
    let mut bytes = encode(&profile("a", "u@h", "k"));
    bytes[9] = 0xff;
    assert!(decode(&bytes).is_none());
}

#[test]
fn decode_rejects_json_text() {
    let text = br#"{"name":"a","user_ip":"u@h","key_path":"k"}"#;
    assert!(decode(text).is_none());
}
