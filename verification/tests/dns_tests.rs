//! The DNS proxy: construction, cache keys, TTLs, planning and caching.

use kairos_rs::models::error::GatewayError;
use kairos_rs::models::router::Backend;
use kairos_rs::routes::dns::{cache_stats, query_bytes, query_response, DnsQueryRequest};
use kairos_rs::services::dns::{DnsHandler, DnsMessage, DnsPlan};

const NOW: u64 = 1_700_000_000_000;

fn question() -> Vec<u8> {
    let mut q = vec![7];
    q.extend_from_slice(b"example");
    q.push(3);
    q.extend_from_slice(b"com");
    q.push(0);
    q.extend_from_slice(&[0, 1, 0, 1]);
    q
}

fn query_message() -> Vec<u8> {
    let mut m = vec![0x12, 0x34, 0x01, 0x00, 0, 1, 0, 0, 0, 0, 0, 0];
    m.extend(question());
    m
}

fn answer_message(ttl: u32) -> Vec<u8> {
    let mut m = vec![0x12, 0x34, 0x81, 0x80, 0, 1, 0, 1, 0, 0, 0, 0];
    m.extend(question());
    m.extend_from_slice(&[0xc0, 0x0c, 0, 1, 0, 1]);
    m.extend_from_slice(&ttl.to_be_bytes());
    m.extend_from_slice(&[0, 4, 93, 184, 216, 34]);
    m
}

fn dns_backend() -> Backend {
    Backend { host: "dns://8.8.8.8".to_string(), port: 53, weight: 1, health_check_path: None }
}

#[test]
fn test_dns_handler_creation() {
    let _handler = DnsHandler::new(5);
    assert!(true);
}

#[test]
fn test_dns_handler_with_different_timeouts() {
    let _handler1 = DnsHandler::new(5);
    let _handler2 = DnsHandler::new(10);
    let _handler3 = DnsHandler::new(30);
    assert!(true);
}

#[test]
fn test_cache_operations() {
    let mut handler = DnsHandler::new(5);
    assert_eq!(handler.cache_size(), 0);
    handler.clear_expired(NOW);
    assert_eq!(handler.cache_size(), 0);
}

#[test]
fn test_cache_initial_state() {
    let handler = DnsHandler::new(5);
    assert_eq!(handler.cache_size(), 0);
}

#[test]
fn test_cache_clear_expired_empty() {
    let mut handler = DnsHandler::new(5);
    handler.clear_expired(NOW);
    assert_eq!(handler.cache_size(), 0);
}

#[test]
fn test_dns_handler_clone() {
    let handler = DnsHandler::new(5);
    let cloned = handler.clone();
    assert_eq!(cloned.timeout_seconds(), 5);
}

#[test]
fn test_dns_handler_multiple_instances() {
    let handler1 = DnsHandler::new(5);
    let handler2 = DnsHandler::new(10);
    assert_eq!(handler1.timeout_seconds(), 5);
    assert_eq!(handler2.timeout_seconds(), 10);
}

#[test]
fn test_dns_timeout_values() {
    let _handler1 = DnsHandler::new(1);
    let _handler2 = DnsHandler::new(0);
    let _handler3 = DnsHandler::new(60);
    assert!(true);
}

#[test]
fn test_handler_cache_independence() {
    let handler1 = DnsHandler::new(5);
    let handler2 = DnsHandler::new(5);
    assert_eq!(handler1.cache_size(), 0);
    assert_eq!(handler2.cache_size(), 0);
}

#[test]
fn test_clone_shares_cache() {
    let handler = DnsHandler::new(5);
    let cloned = handler.clone();
    assert_eq!(handler.cache_size(), cloned.cache_size());
}

#[test]
fn dns_tests_test_handler_lifecycle() {
    let handler = DnsHandler::new(5);
    let cloned = handler.clone();
    drop(handler);
    drop(cloned);
    assert!(true);
}

#[test]
fn test_cache_key_and_ttl() {
    let handler = DnsHandler::new(5);
    let query = DnsMessage {
        question: Some(("example.com.".to_string(), "A".to_string(), "IN".to_string())),
        answer_ttls: vec![],
        encoded: Ok(query_message()),
    };
    assert_eq!(handler.generate_cache_key(&query), "example.com.:A:IN");
    assert_eq!(handler.get_min_ttl(&query), 0);
    let answer = DnsMessage { question: None, answer_ttls: vec![300, 60, 120], encoded: Ok(vec![]) };
    assert_eq!(handler.generate_cache_key(&answer), "unknown");
    assert_eq!(handler.get_min_ttl(&answer), 60);
}

#[test]
fn test_extract_host() {
    let handler = DnsHandler::new(5);
    assert_eq!(handler.extract_host("dns://1.1.1.1").unwrap(), "1.1.1.1");
    assert_eq!(handler.extract_host("udp://9.9.9.9").unwrap(), "9.9.9.9");
    assert_eq!(handler.extract_host("8.8.4.4").unwrap(), "8.8.4.4");
}

#[test]
fn test_garbage_query_is_refused() {
    let handler = DnsHandler::new(5);
    match handler.begin_query(&[1, 2, 3], &dns_backend(), NOW) {
        Err(GatewayError::Config { message, route }) => {
            assert!(message.starts_with("Failed to parse DNS query: "));
            assert_eq!(route, "dns");
        }
        other => panic!("unexpected {:?}", other),
    }
}

#[test]
fn test_forward_then_cache_then_expire() {
    let mut handler = DnsHandler::new(5);
    let backend = dns_backend();
    let (key, server) = match handler.begin_query(&query_message(), &backend, NOW).unwrap() {
        DnsPlan::Forward { cache_key, server } => (cache_key, server),
        other => panic!("unexpected {:?}", other),
    };
    assert_eq!(key, "example.com.:A:IN");
    assert_eq!(server, "8.8.8.8:53");

    let answer = answer_message(300);
    let returned = handler.finish_query(key, answer.clone(), NOW);
    assert_eq!(returned, answer);
    assert_eq!(handler.cache_size(), 1);
    assert_eq!(cache_stats(&handler).size, 1);

    match handler.begin_query(&query_message(), &backend, NOW + 1000).unwrap() {
        DnsPlan::Cached(bytes) => {
            assert_eq!(bytes.len(), answer.len());
            assert_eq!(&bytes[12..], &answer[12..]);
        }
        other => panic!("unexpected {:?}", other),
    }

    handler.clear_expired(NOW + 300_000);
    assert_eq!(handler.cache_size(), 0);
    assert!(matches!(
        handler.begin_query(&query_message(), &backend, NOW + 300_000).unwrap(),
        DnsPlan::Forward { .. }
    ));
}

#[test]
fn test_zero_ttl_answers_are_not_cached() {
    let mut handler = DnsHandler::new(5);
    handler.finish_query("k".to_string(), answer_message(0), NOW);
    assert_eq!(handler.cache_size(), 0);
    handler.finish_query("k".to_string(), vec![0xff], NOW);
    assert_eq!(handler.cache_size(), 0);
}

#[test]
fn test_hex_bodies() {
    let ok = query_bytes(&DnsQueryRequest { query: "0a0B".to_string() });
    assert_eq!(ok, Ok(vec![0x0a, 0x0b]));
    let bad = query_bytes(&DnsQueryRequest { query: "zz".to_string() });
    assert!(bad.unwrap_err().starts_with("Invalid hex query: "));
    let response = query_response(&vec![0xde, 0xad, 0x01]);
    assert_eq!(response.response, "dead01");
    assert!(!response.cached);
}

#[test]
fn test_hex_round_trip() {
    let wire = answer_message(60);
    let body = query_response(&wire);
    let back = query_bytes(&DnsQueryRequest { query: body.response });
    assert_eq!(back, Ok(wire));
}

#[test]
fn test_hex_error_texts() {
    let odd = query_bytes(&DnsQueryRequest { query: "abc".to_string() });
    assert_eq!(odd, Err("Invalid hex query: Odd number of digits".to_string()));
    let bad = query_bytes(&DnsQueryRequest { query: "0a0g".to_string() });
    assert_eq!(bad, Err("Invalid hex query: Invalid character 'g' at position 3".to_string()));
}
