use webvh_vectors::digest::{compute_entry_hash, hash_text, public_multibase};
use webvh_vectors::entries::parse_version_number;
use webvh_vectors::json::{to_json_text, Json};
use webvh_vectors::placeholders::key_id_placeholder;
use webvh_vectors::text::{decimal_text, join_text, parse_u32, replace_text, split_text, NumberError};

fn t(s: &str) -> Vec<char> {
    s.chars().collect()
}

fn st(v: &[char]) -> String {
    v.iter().collect()
}

fn jstr(s: &str) -> Json {
    Json::Str(t(s))
}

fn obj(ms: Vec<(&str, Json)>) -> Json {
    Json::Object(ms.into_iter().map(|(k, v)| (t(k), v)).collect())
}

const RFC_SEED: &str = "9d61b19deffd5a60ba844af492ec2cc44449c5697b326919703bac031cae7f60";
const RFC_MULTIBASE: &str = "z6MktwupdmLXVVqTzCw4i46r4uGyosGXRnR3XjN4Zq7oMMsw";

#[test]
fn key_placeholder_upper_cases_and_underscores() {
    assert_eq!(key_id_placeholder("key-1"), "{KEY_1}");
    assert_eq!(key_id_placeholder("witness-a-b"), "{WITNESS_A_B}");
    assert_eq!(key_id_placeholder(""), "{}");
}

#[test]
fn parse_reads_decimal_numbers() {
    assert_eq!(parse_u32(&t("12")), Ok(12));
    assert_eq!(parse_u32(&t("+7")), Ok(7));
    assert_eq!(parse_u32(&t("0042")), Ok(42));
    assert_eq!(parse_u32(&t("4294967295")), Ok(u32::MAX));
}

#[test]
fn parse_reports_the_first_problem() {
    assert_eq!(parse_u32(&t("")), Err(NumberError::Empty));
    assert_eq!(parse_u32(&t("+")), Err(NumberError::InvalidDigit));
    assert_eq!(parse_u32(&t("-1")), Err(NumberError::InvalidDigit));
    assert_eq!(parse_u32(&t("12x")), Err(NumberError::InvalidDigit));
    assert_eq!(parse_u32(&t("4294967296")), Err(NumberError::TooLarge));
    assert_eq!(parse_u32(&t("4294967296x")), Err(NumberError::TooLarge));
    assert_eq!(parse_u32(&t("x4294967296")), Err(NumberError::InvalidDigit));
}

#[test]
fn number_error_messages_are_std_ones() {
    assert_eq!(st(&NumberError::Empty.message_chars()), "cannot parse integer from empty string");
    assert_eq!(st(&NumberError::InvalidDigit.message_chars()), "invalid digit found in string");
    assert_eq!(st(&NumberError::TooLarge.message_chars()), "number too large to fit in target type");
}

#[test]
fn decimal_numerals() {
    assert_eq!(st(&decimal_text(0)), "0");
    assert_eq!(st(&decimal_text(7)), "7");
    assert_eq!(st(&decimal_text(4294967295)), "4294967295");
}

#[test]
fn decimal_reads_back() {
    for n in [0u32, 1, 9, 10, 99, 100, 65535, u32::MAX] {
        let d = decimal_text(n as u64);
        assert_eq!(parse_u32(&d), Ok(n));
    }
}

#[test]
fn version_numbers_of_identifiers() {
    assert_eq!(parse_version_number(&t("3-QmAbc")), Ok(3));
    assert_eq!(parse_version_number(&t("12")), Ok(12));
    assert_eq!(parse_version_number(&t("-QmAbc")), Err(NumberError::Empty));
    assert_eq!(parse_version_number(&t("x-1")), Err(NumberError::InvalidDigit));
}

#[test]
fn split_and_join() {
    let parts = split_text(&t("did:webvh:scid:example.com"), ':');
    let strs: Vec<String> = parts.iter().map(|p| st(p)).collect();
    assert_eq!(strs, vec!["did", "webvh", "scid", "example.com"]);
    assert_eq!(st(&join_text(&parts, ':')), "did:webvh:scid:example.com");
    let empty = split_text(&t(""), ':');
    assert_eq!(empty.len(), 1);
    assert!(empty[0].is_empty());
    let edges: Vec<String> = split_text(&t(":a::"), ':').iter().map(|p| st(p)).collect();
    assert_eq!(edges, vec!["", "a", "", ""]);
}

#[test]
fn split_join_round_trip() {
    for s in ["", ":", "a:b", "::x::", "no separator"] {
        let parts = split_text(&t(s), ':');
        assert_eq!(st(&join_text(&parts, ':')), s);
    }
}

#[test]
fn replace_takes_occurrences_from_the_left() {
    assert_eq!(st(&replace_text(&t("a{SCID}b{SCID}"), &t("{SCID}"), &t("X"))), "aXbX");
    assert_eq!(st(&replace_text(&t("aaa"), &t("aa"), &t("b"))), "ba");
    assert_eq!(st(&replace_text(&t("none"), &t("{SCID}"), &t("X"))), "none");
}

#[test]
fn json_text_is_compact_and_escaped() {
    let v = obj(vec![
        ("a", jstr("x\"y\\z")),
        ("b", Json::Array(vec![Json::Number(t("1")), Json::Bool(true), Json::Null])),
        ("c", obj(vec![])),
        ("d", jstr("\n")),
    ]);
    assert_eq!(st(&to_json_text(&v)), "{\"a\":\"x\\\"y\\\\z\",\"b\":[1,true,null],\"c\":{},\"d\":\"\\u000a\"}");
}

#[test]
fn entry_hash_is_base58_multihash_of_canonical_json() {
    let v = obj(vec![("b", Json::Number(t("2"))), ("a", jstr("x"))]);
    let h = compute_entry_hash(&v).unwrap();
    assert_eq!(st(&h), "QmWKRD6wQK5MRq6j6x3q4AXB8y4Bx1zbEcVRnEL6nisg21");
}

#[test]
fn entry_hash_ignores_member_order() {
    let a = obj(vec![("b", Json::Number(t("2"))), ("a", jstr("x"))]);
    let b = obj(vec![("a", jstr("x")), ("b", Json::Number(t("2")))]);
    assert_eq!(compute_entry_hash(&a).unwrap(), compute_entry_hash(&b).unwrap());
}

#[test]
fn hash_of_a_key_multibase() {
    assert_eq!(st(&hash_text(&t(RFC_MULTIBASE))), "QmSEpeEJ5xqhtg18zvfH7CwWWytCcFDuj2zeFsfvsmMaYX");
}

#[test]
fn ed25519_multibase_of_rfc_seed() {
    let mut seed = Vec::new();
    for i in 0..32 {
        seed.push(u8::from_str_radix(&RFC_SEED[2 * i..2 * i + 2], 16).unwrap());
    }
    assert_eq!(st(&public_multibase(&seed)), RFC_MULTIBASE);
}

#[test]
fn entry_hash_fails_on_text_the_canonicaliser_refuses() {
    let bad = obj(vec![("n", Json::Number(t("not-a-number")))]);
    assert!(compute_entry_hash(&bad).is_err());
    let good = obj(vec![("n", Json::Number(t("12")))]);
    assert!(compute_entry_hash(&good).is_ok());
}

#[test]
fn ascii_placeholders_fold_case_and_dashes() {
    assert_eq!(key_id_placeholder("key-authorized"), "{KEY_AUTHORIZED}");
    assert_eq!(key_id_placeholder("key-a"), "{KEY_A}");
    assert_eq!(key_id_placeholder("KEY_A"), "{KEY_A}");
    assert_eq!(key_id_placeholder("Key-A"), "{KEY_A}");
    assert_ne!(key_id_placeholder("key-a"), key_id_placeholder("key-b"));
    assert_ne!(key_id_placeholder("key-a"), key_id_placeholder("key-a-"));
    assert_eq!(key_id_placeholder("k{1}"), "{K{1}}");
}
