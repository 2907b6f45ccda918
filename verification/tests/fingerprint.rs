use sha3::Digest;
use spyn::digest::encode_digest;
use spyn::fingerprint::{append_bytes, selector_bytes};
use spyn::reqs::Requirements;

fn reqs_of(names: &[&str]) -> Requirements {
    let mut reqs = Requirements::new();
    for n in names {
        reqs.add(n);
    }
    reqs
}

fn sha3_224_hex(message: &[u8]) -> String {
    hex::encode(sha3::Sha3_224::digest(message))
}

#[test]
fn fingerprint_of_nothing_is_the_digest_of_the_empty_message() {
    let reqs = Requirements::new();
    assert!(reqs.message(None).is_empty());
    assert_eq!(
        reqs.hash(None),
        "6b4e03423667dbb73b6e15454f0eb1abd4597f9a1b078e3f5b5a6bc7"
    );
}

#[test]
fn fingerprint_of_one_name_is_the_digest_of_its_bytes() {
    let reqs = reqs_of(&["abc"]);
    assert_eq!(reqs.message(None), b"abc".to_vec());
    assert_eq!(
        reqs.hash(None),
        "e642824c3f8cf24ad09234ee7d3c766fc9a3a5168d0c94ad73b46fdf"
    );
}

#[test]
fn message_is_tag_selector_and_sorted_names() {
    let reqs = reqs_of(&["requests", "numpy", "flask"]);
    assert_eq!(reqs.message(None), b"flasknumpyrequests".to_vec());
    assert_eq!(
        reqs.message(Some("3.11")),
        b"py:3.11flasknumpyrequests".to_vec()
    );
    assert_eq!(reqs.message(Some("")), b"py:flasknumpyrequests".to_vec());
    assert_eq!(
        reqs.hash(Some("3.11")),
        sha3_224_hex(b"py:3.11flasknumpyrequests")
    );
    assert_eq!(reqs.hash(None), sha3_224_hex(b"flasknumpyrequests"));
}

#[test]
fn message_uses_the_utf8_bytes() {
    let reqs = reqs_of(&["\u{e9}clair", "z"]);
    assert_eq!(
        reqs.message(Some("\u{3c0}")),
        "py:\u{3c0}z\u{e9}clair".as_bytes().to_vec()
    );
}

#[test]
fn fingerprint_is_56_lowercase_hex_digits() {
    let text = reqs_of(&["a", "b"]).hash(Some("3.12"));
    assert_eq!(text.len(), 56);
    assert!(text
        .chars()
        .all(|c| c.is_ascii_digit() || ('a'..='f').contains(&c)));
}

#[test]
fn fingerprint_ignores_insertion_order() {
    let one = reqs_of(&["numpy", "requests", "flask"]);
    let two = reqs_of(&["flask", "requests", "numpy", "flask"]);
    assert_eq!(one.hash(None), two.hash(None));
    assert_eq!(one.hash(Some("3.9")), two.hash(Some("3.9")));
    let mut three = Requirements::new();
    three.extend(&vec!["requests".to_string(), "flask".to_string()]);
    three.add("numpy");
    assert_eq!(one.hash(Some("3.9")), three.hash(Some("3.9")));
}

#[test]
fn fingerprint_is_repeatable() {
    let reqs = reqs_of(&["numpy"]);
    assert_eq!(reqs.hash(Some("3.9")), reqs.hash(Some("3.9")));
}

#[test]
fn fingerprint_depends_on_the_selector() {
    let reqs = reqs_of(&["numpy", "requests"]);
    let none = reqs.hash(None);
    let a = reqs.hash(Some("3.11"));
    let b = reqs.hash(Some("3.12"));
    let empty = reqs.hash(Some(""));
    assert_ne!(none, a);
    assert_ne!(none, b);
    assert_ne!(a, b);
    assert_ne!(none, empty);
    assert_ne!(a, empty);
}

#[test]
fn selector_is_told_from_a_requirement() {
    let with_selector = Requirements::new().hash(Some("x"));
    let with_requirement = reqs_of(&["x"]).hash(None);
    assert_ne!(with_selector, with_requirement);
    assert_eq!(with_selector, sha3_224_hex(b"py:x"));
    assert_eq!(with_requirement, sha3_224_hex(b"x"));
}

#[test]
fn fingerprint_depends_on_the_members() {
    assert_ne!(reqs_of(&["a"]).hash(None), reqs_of(&["b"]).hash(None));
    assert_ne!(reqs_of(&["a"]).hash(None), reqs_of(&["a", "b"]).hash(None));
}

#[test]
fn digest_is_rendered_in_lowercase_hex() {
    assert_eq!(encode_digest(&vec![]), "");
    assert_eq!(encode_digest(&vec![0x00, 0x01, 0xab, 0xff, 0x10]), "0001abff10");
    assert_eq!(encode_digest(&b"Hello".to_vec()), "48656c6c6f");
}

#[test]
fn selector_bytes_open_the_message() {
    assert!(selector_bytes(None).is_empty());
    assert_eq!(selector_bytes(Some("")), b"py:".to_vec());
    assert_eq!(selector_bytes(Some("3.11")), b"py:3.11".to_vec());
}

#[test]
fn append_bytes_appends() {
    let mut buffer = vec![1u8, 2];
    append_bytes(&mut buffer, &[3, 4, 5]);
    append_bytes(&mut buffer, &[]);
    assert_eq!(buffer, vec![1, 2, 3, 4, 5]);
}

#[test]
fn fingerprint_is_what_feeding_the_parts_one_by_one_gives() {
    let reqs = reqs_of(&["requests", "numpy", "flask"]);
    let mut hasher = sha3::Sha3_224::new();
    hasher.update("py:");
    hasher.update("3.11");
    for name in ["flask", "numpy", "requests"] {
        hasher.update(name.as_bytes());
    }
    assert_eq!(reqs.hash(Some("3.11")), hex::encode(hasher.finalize()));

    let mut plain = sha3::Sha3_224::new();
    for name in ["flask", "numpy", "requests"] {
        plain.update(name.as_bytes());
    }
    assert_eq!(reqs.hash(None), hex::encode(plain.finalize()));
}
