use dtv::net_proxy::{parse_proxy_url, ParsedProxy};
use dtv::socks5::{FailureKind, Phase, Socks5Connect, SocksAction, SocksError};

fn proxy(address: &str) -> ParsedProxy {
    parse_proxy_url(address).unwrap()
}

fn sent(action: SocksAction) -> (Vec<u8>, usize) {
    match action {
        SocksAction::Exchange { send, read } => (send, read),
        _ => panic!("the handshake is over"),
    }
}

fn failure(action: SocksAction) -> SocksError {
    match action {
        SocksAction::Fail(e) => e,
        _ => panic!("no failure"),
    }
}

const REQUEST: &[u8] = b"\x05\x01\x00\x03\x0bexample.com\x01\xbb";

#[test]
fn handshake_without_credentials() {
    let mut s = Socks5Connect::new(&proxy("socks5://p"), "example.com", 443);
    assert_eq!(s.greet(), vec![5, 1, 0]);
    assert_eq!(s.phase.expected_len(), 2);
    assert_eq!(sent(s.feed(&[5, 0])), (REQUEST.to_vec(), 4));
    assert_eq!(sent(s.feed(&[5, 0, 0, 1])), (Vec::new(), 6));
    assert_eq!(s.phase.expected_len(), 6);
    assert!(matches!(s.feed(&[127, 0, 0, 1, 0, 80]), SocksAction::Done));
    assert_eq!(s.phase, Phase::Connected);
}

#[test]
fn handshake_with_credentials() {
    let mut s = Socks5Connect::new(&proxy("socks5://user:pw@p"), "example.com", 443);
    assert_eq!(s.greet(), vec![5, 1, 2]);
    assert_eq!(sent(s.feed(&[5, 2])), (b"\x01\x04user\x02pw".to_vec(), 2));
    assert_eq!(sent(s.feed(&[1, 0])), (REQUEST.to_vec(), 4));
    assert_eq!(sent(s.feed(&[5, 0, 0, 3])), (Vec::new(), 1));
    assert_eq!(sent(s.feed(&[9])), (Vec::new(), 11));
    assert!(matches!(s.feed(&[0; 11]), SocksAction::Done));
}

#[test]
fn unasked_credentials_are_empty() {
    let mut s = Socks5Connect::new(&proxy("socks5://p"), "h", 1);
    assert_eq!(sent(s.feed(&[5, 2])), (vec![1, 0, 0], 2));
}

#[test]
fn long_names_are_measured_modulo_256() {
    let name = "n".repeat(300);
    let mut s = Socks5Connect::new(&proxy(&format!("socks5://{name}:x@p")), "h", 1);
    let (message, _) = sent(s.feed(&[5, 2]));
    assert_eq!(message.len(), 2 + 300 + 1 + 1);
    assert_eq!(message[1], 44);
}

#[test]
fn address_of_the_reply_is_read_whole() {
    let mut s = Socks5Connect::new(&proxy("socks5://p"), "example.com", 443);
    s.feed(&[5, 0]);
    assert_eq!(sent(s.feed(&[5, 0, 0, 4])), (Vec::new(), 18));
    assert!(matches!(s.feed(&[0; 18]), SocksAction::Done));
    let mut bare = Socks5Connect::new(&proxy("socks5://p"), "example.com", 443);
    bare.feed(&[5, 0]);
    assert!(matches!(bare.feed(&[5, 0, 0, 9]), SocksAction::Done));
}

#[test]
fn failures_have_their_kind_and_text() {
    let start = || Socks5Connect::new(&proxy("socks5://u:p@p"), "example.com", 443);
    let mut s = start();
    let e = failure(s.feed(&[4, 0]));
    assert_eq!(e, SocksError::InvalidVersion);
    assert_eq!((e.kind(), e.message().as_str()), (FailureKind::Other, "invalid socks5 version"));
    assert_eq!(s.phase, Phase::Failed);

    let e = failure(start().feed(&[5, 255]));
    assert_eq!((e.kind(), e.message().as_str()), (FailureKind::Other, "socks5 method not accepted"));

    let mut s = start();
    s.feed(&[5, 2]);
    let e = failure(s.feed(&[1, 1]));
    assert_eq!((e.kind(), e.message().as_str()), (FailureKind::PermissionDenied, "socks5 auth failed"));

    let mut s = start();
    s.feed(&[5, 0]);
    let e = failure(s.feed(&[5, 5, 0, 1]));
    assert_eq!(e, SocksError::Rejected(5));
    assert_eq!((e.kind(), e.message().as_str()), (FailureKind::Other, "socks5 connect rejected: 5"));
}

#[test]
fn host_name_has_to_fit() {
    let fits = "h".repeat(255);
    let mut s = Socks5Connect::new(&proxy("socks5://p"), &fits, 258);
    let (message, _) = sent(s.feed(&[5, 0]));
    assert_eq!(message[4], 255);
    assert_eq!(message[260..].to_vec(), vec![1, 2]);
    let long = "h".repeat(256);
    let mut s = Socks5Connect::new(&proxy("socks5://p"), &long, 1);
    let e = failure(s.feed(&[5, 0]));
    assert_eq!((e.kind(), e.message().as_str()), (FailureKind::InvalidInput, "hostname too long"));
}
