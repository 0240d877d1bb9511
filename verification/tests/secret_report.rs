use macgyver_rs::secret::{
    self, is_opaque, print_entry, print_secret, Decoded, Secret, SecretEntry,
};

fn entry(key: &str, value: &[u8]) -> SecretEntry {
    SecretEntry { key: key.to_string(), value: value.to_vec() }
}

fn secret(name: Option<&str>, kind: &str, data: Option<Vec<SecretEntry>>) -> Secret {
    Secret { name: name.map(|n| n.to_string()), type_: Some(kind.to_string()), data }
}

#[test]
fn only_the_opaque_type_is_opaque() {
    assert!(is_opaque(&secret(None, "Opaque", None)));
    assert!(!is_opaque(&secret(None, "opaque", None)));
    assert!(!is_opaque(&secret(None, "kubernetes.io/tls", None)));
    assert!(!is_opaque(&secret(None, "", None)));
}

#[test]
fn decoded_line_without_the_encoded_form() {
    let line = Decoded { key: "user", decoded: "admin", base64: "YWRtaW4=", with_encoded: false }.line();
    assert_eq!(line, format!("      {0:_<50} {1}", "user", "admin"));
    assert_eq!(line, format!("      user{} admin", "_".repeat(46)));
}

#[test]
fn decoded_line_with_the_encoded_form() {
    let line = Decoded { key: "user", decoded: "admin", base64: "YWRtaW4=", with_encoded: true }.line();
    assert_eq!(line, format!("      {0:_<50} {1:_<70} {2}", "user", "admin", "YWRtaW4="));
    assert_eq!(line, format!("      user{} admin{} YWRtaW4=", "_".repeat(46), "_".repeat(65)));
}

#[test]
fn entry_is_decoded_and_encoded() {
    assert_eq!(
        print_entry(&entry("greeting", b"hello"), true),
        format!("      {0:_<50} {1:_<70} {2}", "greeting", "hello", "aGVsbG8=")
    );
    assert_eq!(
        print_entry(&entry("greeting", b"hello"), false),
        format!("      {0:_<50} {1}", "greeting", "hello")
    );
}

#[test]
fn base64_pads_to_groups_of_four() {
    let encoded = |value: &[u8]| {
        let line = print_entry(&entry("k", value), true);
        line.rsplit(' ').next().unwrap().to_string()
    };
    assert_eq!(encoded(b""), "");
    assert_eq!(encoded(b"f"), "Zg==");
    assert_eq!(encoded(b"fo"), "Zm8=");
    assert_eq!(encoded(b"foo"), "Zm9v");
    assert_eq!(encoded(b"foob"), "Zm9vYg==");
    assert_eq!(encoded(&[0xFB, 0xFF]), "+/8=");
}

#[test]
fn bytes_that_are_no_text_are_reported_as_such() {
    assert_eq!(
        print_entry(&entry("blob", &[0xFF, 0x00]), true),
        format!("      {0:_<50} {1:_<70} {2}", "blob", "Error decoding", "/wA=")
    );
    assert_eq!(
        print_entry(&entry("blob", &[0xFF, 0x00]), false),
        format!("      {0:_<50} {1}", "blob", "Error decoding")
    );
}

#[test]
fn secret_shows_name_entries_and_an_empty_line() {
    colored::control::set_override(false);
    let s = secret(Some("db"), "Opaque", Some(vec![entry("pass", b"s3cr3t"), entry("user", b"admin")]));
    assert_eq!(
        print_secret(&s, false),
        vec![
            "db".to_string(),
            format!("      {0:_<50} {1}", "pass", "s3cr3t"),
            format!("      {0:_<50} {1}", "user", "admin"),
            String::new(),
        ]
    );
}

#[test]
fn secret_name_is_bold_white_on_a_terminal() {
    colored::control::set_override(true);
    let s = secret(Some("db"), "Opaque", Some(Vec::new()));
    assert_eq!(print_secret(&s, false), vec!["\u{1b}[1;37mdb\u{1b}[0m".to_string(), String::new()]);
}

#[test]
fn secret_without_name_or_data_shows_an_empty_line() {
    let no_name = secret(None, "Opaque", Some(vec![entry("k", b"v")]));
    assert_eq!(print_secret(&no_name, true), vec![String::new()]);
    let no_data = secret(Some("db"), "Opaque", None);
    assert_eq!(print_secret(&no_data, true), vec![String::new()]);
}

#[test]
fn report_on_secrets_shows_the_opaque_ones() {
    colored::control::set_override(false);
    let secrets = vec![
        secret(Some("tls"), "kubernetes.io/tls", Some(vec![entry("tls.key", b"k")])),
        secret(Some("db"), "Opaque", Some(vec![entry("user", b"admin")])),
        secret(None, "Opaque", None),
        secret(Some("token"), "kubernetes.io/service-account-token", None),
    ];
    assert_eq!(
        secret::process("PROD", &secrets, true),
        vec![
            "ENVIRONMENT: PROD".to_string(),
            "db".to_string(),
            format!("      {0:_<50} {1:_<70} {2}", "user", "admin", "YWRtaW4="),
            String::new(),
            String::new(),
        ]
    );
    assert_eq!(secret::process("PROD", &Vec::new(), true), vec!["ENVIRONMENT: PROD".to_string()]);
}
