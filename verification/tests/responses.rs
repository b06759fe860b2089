use rita::clu::payment_keys::{eth_keys_from, generate_eth_keys};
use rita::clu::release_file::device_from_release;
use rita::clu::{generate_mesh_ip, linux_generate_mesh_ip, validate_mesh_ip, CluError};
use rita::http_client::{check_framed, response_text, HTTPClientError};
use rita::logging::{
    get_remote_logging, get_remote_logging_level, remote_logging, remote_logging_level,
    restart_command, LevelChange, LoggingSettings,
};
use rita::kernel::KernelRequest;
use rita::text::chars_of;
use rita::wallet::{
    eth_compatable_withdraw, impossible_message, no_address_message, text_contains,
    transfer_refused, transfer_sent, withdraw, xdai_to_eth_withdraw, SystemChain, TransferStart,
    WithdrawRoute,
};
use rita::identity::EthAddress;

fn framed(text: &str) -> bool {
    check_framed(&chars_of(text))
}

#[test]
fn a_plain_response_yields_its_body() {
    let resp = "HTTP/1.1 200 OK\r\nContent-Length: 13\r\nContent-Type: application/json\r\n\r\n{\"wg_port\":1}";
    assert_eq!(response_text(resp), Ok("{\"wg_port\":1}".to_string()));
    let bare = "HTTP/1.0 200 OK\r\n\r\nhello\r\n\r\nworld";
    assert_eq!(response_text(bare), Ok("hello\r\n\r\nworld".to_string()));
    let empty_body = "HTTP/1.0 204 No Content\r\nServer: x\r\n\r\n";
    assert_eq!(response_text(empty_body), Ok(String::new()));
    let unicode = "HTTP/1.0 200 OK\r\nX-Näme: é\r\n\r\n{\"n\":\"é\"}";
    assert_eq!(response_text(unicode), Ok("{\"n\":\"é\"}".to_string()));
}

#[test]
fn what_is_no_response_is_a_parse_error() {
    for resp in [
        "",
        "\r",
        "\r\n",
        "a\r\n",
        "a\r\n\r",
        "garbage",
        "HTTP/1.1 200 OK",
        "HTTP/1.1 200 OK\r\nContent-Length: 2\r\n",
        "HTTP/1.1 200\r\n\r\nbody",
        "HTTP/1.1\r\n\r\nbody",
        "\r\n\r\n",
        "HTTP/1.1 200 OK\r\nno colon here\r\n\r\nbody",
        "HTTP/1.1 200 OK\r\nA: b\r\nnocolon\r\n\r\nbody",
        "HTTP/1.1 200 OK\r\nTransfer-Encoding: chunked\r\n\r\n0\r\n\r\n",
        "HTTP/1.1 abc OK\r\nA: b\r\n\r\nbody",
        "HTTP/1.1 -1 OK\r\n\r\nbody",
    ] {
        assert_eq!(response_text(resp), Err(HTTPClientError::HTTPParseError), "{:?}", resp);
    }
}

#[test]
fn which_statuses_are_read() {
    for status in ["200", "+200", "0200", "0", "18446744073709551615", "000000000000000000000001"] {
        let resp = format!("HTTP/1.0 {} OK\r\nA: b\r\n\r\nbody", status);
        assert_eq!(response_text(&resp), Ok("body".to_string()), "{:?}", status);
    }
    for status in ["", "+", "-200", "++2", "2x0", "x", "2.0", "٣", "18446744073709551616", "+-1"] {
        let resp = format!("HTTP/1.0 {} OK\r\nA: b\r\n\r\nbody", status);
        assert_eq!(response_text(&resp), Err(HTTPClientError::HTTPParseError), "{:?}", status);
    }
    assert_eq!(response_text("HTTP/1.0 2 00 OK\r\n\r\nbody"), Ok("body".to_string()));
}

/// Whether the second word of the first line writes a number of sixty-four bits.
fn status_is_read(text: &str) -> bool {
    let line = text.split("\r\n").next().unwrap();
    let word = line.splitn(3, ' ').nth(1).unwrap();
    let digits = word.strip_prefix('+').unwrap_or(word);
    let mut value: u128 = 0;
    for c in digits.chars() {
        match c.to_digit(10) {
            Some(d) if c.is_ascii() && value <= u64::MAX as u128 => value = value * 10 + d as u128,
            _ => return false,
        }
    }
    !digits.is_empty() && value <= u64::MAX as u128
}

#[test]
fn the_frame_of_a_response() {
    assert!(framed("HTTP/1.1 200 OK\r\n\r\n"));
    assert!(framed("a b c\r\nK: v\r\n\r\nrest"));
    assert!(framed("a b c\r\nK: v\r\nTransfer-Encoding: gzip\r\n\r\nrest"));
    assert!(framed("a  \r\n\r\n"));
    assert!(framed("HTTP/1.1 abc OK\r\n\r\n"));
    assert!(!framed("a b\r\n\r\n"));
    assert!(!framed("a b c\r\nK:v\r\n\r\n"));
    assert!(!framed("a b c\r\nK: v\r\n"));
    assert!(!framed("a b c\r\nK: v\r\nTransfer-Encoding: chunked\r\n\r\n"));
    assert!(!framed("a\r\nb c d\r\n\r\n"));
}

#[test]
fn the_device_is_the_second_word_of_its_line() {
    let file = "version: 1.2\ndevice: mynet-n750\nreleased: today\n";
    assert_eq!(device_from_release(file).unwrap(), Some("mynet-n750".to_string()));
    assert_eq!(device_from_release("device: a b c").unwrap(), Some("a".to_string()));
    assert_eq!(device_from_release("device:  two-spaces").unwrap(), Some(String::new()));
    assert_eq!(device_from_release("x: y\r\ndevice: dos\r\nz").unwrap(), Some("dos".to_string()));
    assert_eq!(device_from_release("device: bare\r").unwrap(), Some("bare\r".to_string()));
    assert_eq!(device_from_release("device:first second\n").unwrap(), Some("second".to_string()));
    assert_eq!(
        device_from_release("device: one\ndevice: two\n").unwrap(),
        Some("one".to_string())
    );
}

#[test]
fn a_file_without_a_device_line() {
    assert_eq!(device_from_release("").unwrap(), None);
    assert_eq!(device_from_release("\n\n").unwrap(), None);
    assert_eq!(device_from_release("version: 3\n device: indented\n").unwrap(), None);
    assert_eq!(device_from_release("devic: x\nDevice: y").unwrap(), None);
    assert_eq!(device_from_release("device").unwrap(), None);
}

#[test]
fn a_device_line_without_a_name_is_an_error() {
    match device_from_release("a\ndevice:nospace\nb") {
        Err(CluError::RuntimeError(m)) => {
            assert_eq!(m, "Could not obtain device name from line \"device:nospace\"")
        }
        other => panic!("{:?}", other),
    }
    match device_from_release("device:\ttab\r\n") {
        Err(CluError::RuntimeError(m)) => {
            assert_eq!(m, "Could not obtain device name from line \"device:\\ttab\"")
        }
        other => panic!("{:?}", other),
    }
}

#[test]
fn a_mesh_address_is_generated_within_fd00() {
    let a = linux_generate_mesh_ip().unwrap();
    let b = linux_generate_mesh_ip().unwrap();
    assert!(validate_mesh_ip(&a));
    assert!(a.to_text().starts_with("fd"));
    assert!(b.to_text().starts_with("fd"));
    assert!(!a.same(&b));
}

#[test]
fn the_mesh_address_of_a_name() {
    let ip = generate_mesh_ip("cassandra.1", "fd9d:bb35:94bf::/48").unwrap();
    assert_eq!(ip.to_text(), "fd9d:bb35:94bf:c38a:ee1:c75d:8df3:c909");
    let ip = generate_mesh_ip("", "fd9d:bb35:94bf::/48").unwrap();
    assert_eq!(ip.to_text(), "fd9d:bb35:94bf:6fa1:d8fc:fd71:9046:d762");
    let again = generate_mesh_ip("", "fd9d:bb35:94bf::/48").unwrap();
    assert!(ip.same(&again));
    let seed = "AbCdEfGhIjKlMnOpQrStUvWxYz0123456789AbCdEfGhIjKlMn";
    let a = generate_mesh_ip(seed, "fd00::/8").unwrap();
    assert!(a.to_text().starts_with("fd"));
    assert!(a.same(&generate_mesh_ip(seed, "fd00::/8").unwrap()));
}

#[test]
fn no_mesh_address_without_a_network_or_within_ipv4() {
    for network in ["", "garbage", "fd00::/129", "fd00::1/128", "10.0.0.0/8"] {
        match generate_mesh_ip("name", network) {
            Err(CluError::RuntimeError(m)) => {
                assert_eq!(m, "could not generate a mesh IP address", "{:?}", network)
            }
            other => panic!("{:?} for {:?}", other, network),
        }
    }
}

#[test]
fn new_payment_keys_belong_together() {
    let keys = generate_eth_keys().unwrap();
    assert_eq!(eth_keys_from(keys.private_key), Some(keys));
    assert_eq!(eth_keys_from([0u8; 32]), None);
    let other = generate_eth_keys().unwrap();
    assert_ne!(keys.private_key, other.private_key);
    assert!(!keys.address.same(&other.address));
}

fn settings() -> LoggingSettings {
    LoggingSettings { enabled: false, level: "INFO".to_string() }
}

#[test]
fn log_levels_are_spelled_in_any_case() {
    for (text, name) in [
        ("debug", "DEBUG"),
        ("Trace", "TRACE"),
        ("OFF", "OFF"),
        ("eRRoR", "ERROR"),
        ("warn", "WARN"),
        ("info", "INFO"),
    ] {
        let mut s = settings();
        match remote_logging_level(&mut s, text) {
            LevelChange::Stored(n) => assert_eq!(n, name),
            other => panic!("{:?}", other),
        }
        assert_eq!(get_remote_logging_level(&s), name);
        assert!(!s.enabled);
    }
}

#[test]
fn what_spells_no_level_is_a_bad_request() {
    for text in ["", "verbose", "warning", "inf", "info ", "ınfo", "1"] {
        let mut s = settings();
        match remote_logging_level(&mut s, text) {
            LevelChange::BadRequest(m) => {
                assert_eq!(m, "Could not parse loglevel ParseLevelError(())")
            }
            other => panic!("{:?}", other),
        }
        assert_eq!(s.level, "INFO");
    }
}

#[test]
fn switching_remote_logging_restarts_the_service() {
    let mut s = settings();
    match remote_logging(&mut s, true) {
        KernelRequest::RunCommand { program, args } => {
            assert_eq!(program, "/etc/init.d/rita");
            assert_eq!(args, vec!["restart"]);
        }
        other => panic!("{:?}", other),
    }
    assert!(get_remote_logging(&s));
    assert_eq!(s.level, "INFO");
    remote_logging(&mut s, false);
    assert!(!get_remote_logging(&s));
    assert!(matches!(restart_command(), KernelRequest::RunCommand { .. }));
}

#[test]
fn the_way_of_a_withdrawal() {
    let eth = SystemChain::Ethereum;
    let rinkeby = SystemChain::Rinkeby;
    let xdai = SystemChain::Xdai;
    assert_eq!(withdraw(eth, eth), WithdrawRoute::EthCompatible);
    assert_eq!(withdraw(rinkeby, rinkeby), WithdrawRoute::EthCompatible);
    assert_eq!(withdraw(xdai, xdai), WithdrawRoute::EthCompatible);
    assert_eq!(withdraw(xdai, eth), WithdrawRoute::XdaiToEth);
    for (a, b) in [(eth, xdai), (eth, rinkeby), (rinkeby, eth), (rinkeby, xdai), (xdai, rinkeby)] {
        assert_eq!(withdraw(a, b), WithdrawRoute::Impossible);
    }
    assert_eq!(
        impossible_message(eth, xdai),
        "System chain is Ethereum but withdraw chain is Xdai, withdraw impossible!"
    );
    assert_eq!(
        impossible_message(rinkeby, eth),
        "System chain is Rinkeby but withdraw chain is Ethereum, withdraw impossible!"
    );
}

#[test]
fn a_transfer_that_was_sent() {
    let mut id = [0u8; 32];
    id[30] = 0xab;
    id[31] = 0x01;
    let r = transfer_sent(&id);
    assert_eq!(r.status, 200);
    assert_eq!(
        r.body,
        "txid:0x000000000000000000000000000000000000000000000000000000000000ab01"
    );
    assert!(r.nonce_used && !r.refresh_nonce);
    assert_eq!(transfer_sent(&[0xff; 32]).body, format!("txid:0x{}", "ff".repeat(32)));
    assert_eq!(transfer_sent(&[0; 32]).body, format!("txid:0x{}", "00".repeat(32)));
}

#[test]
fn a_transfer_that_was_refused() {
    let r = transfer_refused("the nonce is too low", "Error(\"nonce too low\")");
    assert_eq!(r.status, 504);
    assert_eq!(r.body, "The nonce was not updated, try again Error(\"nonce too low\")");
    assert!(!r.nonce_used && r.refresh_nonce);
    let r = transfer_refused("insufficient funds", "Error(\"insufficient funds, nonce ok\")");
    assert_eq!(
        r.body,
        "Full node failed to send transaction! Error(\"insufficient funds, nonce ok\")"
    );
    assert!(r.refresh_nonce);
}

#[test]
fn searching_text() {
    assert!(text_contains("nonce", "nonce"));
    assert!(text_contains("xnonce", "nonce"));
    assert!(text_contains("noncenonce", "nonce"));
    assert!(text_contains("nononce", "nonce"));
    assert!(text_contains("anything", ""));
    assert!(text_contains("", ""));
    assert!(!text_contains("nonc", "nonce"));
    assert!(!text_contains("", "nonce"));
    assert!(!text_contains("n o n c e", "nonce"));
    assert!(!text_contains("Nonce", "nonce"));
}

#[test]
fn how_a_transfer_starts() {
    let a = EthAddress::new([3; 20]);
    assert_eq!(
        eth_compatable_withdraw(Some(a)),
        TransferStart::Send { from: a, gas_limit: 21000 }
    );
    assert_eq!(eth_compatable_withdraw(None), TransferStart::NoAddress);
    assert_eq!(no_address_message(), "No Address configured, withdraw impossible!");
}

#[test]
fn the_bridge_answers() {
    let r = xdai_to_eth_withdraw(None);
    assert_eq!((r.status, r.body.as_str()), (200, "View endpoints for progress"));
    let r = xdai_to_eth_withdraw(Some("MailboxError(Closed)"));
    assert_eq!((r.status, r.body.as_str()), (504, "MailboxError(Closed)"));
    assert!(!r.nonce_used && !r.refresh_nonce);
}

#[test]
fn responses_of_any_shape_are_told_apart_without_harm() {
    let pieces = [
        "\r", "\n", "\r\n", "\r\n\r\n", " ", ":", ": ", "a", "HTTP/1.1", "200", "OK", "é",
        "Transfer-Encoding", "chunked", "Transfer-Encoding: chunked", "0", "b", "Content-Length: 3",
        "+", "-", "18446744073709551615", " 7 ",
    ];
    let mut state: u64 = 0x2545f4914f6cdd1d;
    let mut accepted = 0;
    for _ in 0..20000 {
        let mut text = String::new();
        state = state.wrapping_mul(6364136223846793005).wrapping_add(1442695040888963407);
        let count = (state >> 60) as usize + 1;
        for _ in 0..count {
            state = state.wrapping_mul(6364136223846793005).wrapping_add(1442695040888963407);
            text.push_str(pieces[(state >> 33) as usize % pieces.len()]);
        }
        match response_text(&text) {
            Ok(body) => {
                accepted += 1;
                let at = text.find("\r\n\r\n").unwrap();
                assert_eq!(body, &text[at + 4..], "{:?}", text);
                assert!(framed(&text) && status_is_read(&text), "{:?}", text);
            }
            Err(e) => {
                assert_eq!(e, HTTPClientError::HTTPParseError);
                assert!(!framed(&text) || !status_is_read(&text), "{:?}", text);
            }
        }
    }
    assert!(accepted > 0);
}
