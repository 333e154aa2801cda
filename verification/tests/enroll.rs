use ig::enroll::{receive, Admission, Tokens};
use ig::keys::{parse_key, PeerKey};
use ig::protocol::{ErrorKind, Failure};

const MINUTE: u64 = 60_000_000_000;

fn key(seed: u8) -> PeerKey {
    parse_key(&iroh::SecretKey::from_bytes(&[seed; 32]).public().to_string()).unwrap()
}

#[test]
fn a_token_is_claimed_once() {
    let mut tokens = Tokens::new();
    let token = tokens.mint(&vec![0xab, 0x01], "vm".to_string(), 0);
    assert_eq!(token, "ab01");
    assert_eq!(tokens.claim("other", 1), None);
    assert_eq!(tokens.claim(&token, 1).as_deref(), Some("vm"));
    assert_eq!(tokens.claim(&token, 1), None);
}

#[test]
fn a_token_is_valid_for_five_minutes() {
    let mut tokens = Tokens::new();
    let a = tokens.mint(&vec![1], "a".to_string(), MINUTE);
    let b = tokens.mint(&vec![2], "b".to_string(), MINUTE);
    assert_eq!(tokens.claim(&a, 6 * MINUTE - 1).as_deref(), Some("a"));
    assert_eq!(tokens.claim(&b, 6 * MINUTE), None);
    assert_eq!(tokens.claim(&b, MINUTE), None);
}

#[test]
fn an_unknown_key_is_refused_unless_it_presents_a_token() {
    let mut tokens = Tokens::new();
    let known = vec![key(2), key(3)];
    assert!(matches!(receive(&mut tokens, &known, &key(3), None, 0), Ok(Admission::Known)));
    let e = receive(&mut tokens, &known, &key(4), None, 0).unwrap_err();
    assert_eq!(Failure::kind_of(&e), ErrorKind::Denied);
    assert_eq!(e.text(), format!("unknown peer {}", key(4).text()));
    assert!(receive(&mut tokens, &known, &key(4), Some("made-up"), 0).is_err());

    let token = tokens.mint(&vec![7; 16], "desktop".to_string(), 0);
    // A peer that is known spends no token.
    assert!(matches!(receive(&mut tokens, &known, &key(2), Some(&token), 0), Ok(Admission::Known)));
    match receive(&mut tokens, &known, &key(4), Some(&token), 0) {
        Ok(Admission::Enrolled { label }) => assert_eq!(label, "desktop"),
        other => panic!("{other:?}"),
    }
    assert!(receive(&mut tokens, &known, &key(5), Some(&token), 0).is_err());
}
