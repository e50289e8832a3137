use rust_tcp::addr::{normalize_addr, AddrError};
use rust_tcp::args::ClientArgs;
use rust_tcp::client::normalize_target;

fn norm(addr: &str, port: &str) -> (Result<(), AddrError>, String) {
    let mut a = String::from(addr);
    let r = normalize_addr(&mut a, port);
    (r, a)
}

#[test]
fn more_than_one_colon_is_rejected() {
    let (r, a) = norm("a:b:c", "11111");
    assert_eq!(r, Err(AddrError::TooManyColons));
    assert_eq!(a, "a:b:c");
}

#[test]
fn many_colons_are_rejected() {
    assert_eq!(norm("::", "1").0, Err(AddrError::TooManyColons));
    assert_eq!(norm("::1", "1").0, Err(AddrError::TooManyColons));
    assert_eq!(norm("1.2.3.4:5:6:7", "1").0, Err(AddrError::TooManyColons));
}

#[test]
fn host_alone_gets_the_default_port() {
    assert_eq!(norm("1.2.3.4", "11111"), (Ok(()), String::from("1.2.3.4:11111")));
    assert_eq!(norm("localhost", "80"), (Ok(()), String::from("localhost:80")));
}

#[test]
fn empty_gets_colon_and_default_port() {
    assert_eq!(norm("", "11111"), (Ok(()), String::from(":11111")));
}

#[test]
fn lone_colon_becomes_any_host_and_default_port() {
    assert_eq!(norm(":", "11111"), (Ok(()), String::from("0.0.0.0:11111")));
}

#[test]
fn port_alone_gets_any_host() {
    assert_eq!(norm(":0", "11111"), (Ok(()), String::from("0.0.0.0:0")));
    assert_eq!(norm(":8080", "11111"), (Ok(()), String::from("0.0.0.0:8080")));
}

#[test]
fn host_and_port_stay() {
    assert_eq!(norm("1.2.3.4:80", "11111"), (Ok(()), String::from("1.2.3.4:80")));
    assert_eq!(norm("1.2.3.4:", "11111"), (Ok(()), String::from("1.2.3.4:")));
}

#[test]
fn non_ascii_text_is_handled_by_character() {
    assert_eq!(norm("hôte", "1"), (Ok(()), String::from("hôte:1")));
    assert_eq!(norm(":é", "1"), (Ok(()), String::from("0.0.0.0:é")));
    assert_eq!(norm("é:b:ç", "1").0, Err(AddrError::TooManyColons));
}

#[test]
fn error_message() {
    assert_eq!(AddrError::TooManyColons.message(), "too many \":\" in addrs");
}

#[test]
fn client_target_gets_port_11111() {
    let mut args =
        ClientArgs { target: String::from("10.0.0.1"), conns: 3, cps: 7, print_latency: true };
    assert_eq!(normalize_target(&mut args), Ok(()));
    assert_eq!(args.target, "10.0.0.1:11111");
    assert_eq!((args.conns, args.cps, args.print_latency), (3, 7, true));
}

#[test]
fn client_target_malformed() {
    let mut args =
        ClientArgs { target: String::from("a:b:c"), conns: 1, cps: 1, print_latency: false };
    assert_eq!(normalize_target(&mut args), Err(AddrError::TooManyColons));
    assert_eq!(args.target, "a:b:c");
}
