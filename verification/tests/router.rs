use rpdns::cache::{Cache, CacheEntry};
use rpdns::question::{normalize, CacheKey};
use rpdns::router::{
    decide, reply_to_hit, route, route_shared, screen, Action, ClientOrigin, PeerAddress, Protocol,
    SizeLimits, Tally,
};
use rpdns::shared::SharedCache;

const EXAMPLE: &[u8] = b"\x07example\x03com\x00";
const LIMITS: SizeLimits = SizeLimits { min_len: 17, max_len: 283 };
const T0: u64 = 5_000;

fn client() -> ClientOrigin {
    ClientOrigin::Datagram(PeerAddress::V4 { ipv4: 0xC000_0201, port: 53_000 })
}

fn query(name: &[u8], tid: u16, payload: Option<u16>) -> Vec<u8> {
    let mut packet = vec![(tid >> 8) as u8, tid as u8, 0x01, 0x00, 0, 1, 0, 0, 0, 0, 0, 0];
    packet.extend_from_slice(name);
    packet.extend_from_slice(&[0, 1, 0, 1]);
    if let Some(size) = payload {
        packet[11] = 1;
        packet.extend_from_slice(&[0, 0, 41, (size >> 8) as u8, size as u8, 0, 0, 0, 0, 0, 0]);
    }
    packet
}

/// A response of `len` bytes to the question for the address of example.com.
fn stored_answer(len: usize) -> Vec<u8> {
    let mut packet = vec![0, 0, 0x81, 0x80, 0, 1, 0, 1, 0, 0, 0, 0];
    packet.extend_from_slice(EXAMPLE);
    packet.extend_from_slice(&[0, 1, 0, 1]);
    while packet.len() < len {
        packet.push(packet.len() as u8);
    }
    packet
}

fn example_key() -> CacheKey {
    CacheKey { name: EXAMPLE.to_vec(), qtype: 1, qclass: 1, dnssec_ok: false }
}

fn filled_cache() -> Cache {
    let mut cache = Cache::new();
    cache.insert(example_key(), stored_answer(40), 300, T0);
    cache
}

fn tally(rejected_size: u64, rejected_parse: u64, hits: u64, expired: u64) -> Tally {
    Tally { received: 1, rejected_size, rejected_parse, hits, expired }
}

fn truncated(name: &[u8], tid: u16) -> Vec<u8> {
    let mut reply = vec![(tid >> 8) as u8, tid as u8, 0x82, 0x00, 0, 1, 0, 0, 0, 0, 0, 0];
    reply.extend_from_slice(name);
    reply.extend_from_slice(&[0, 1, 0, 1]);
    reply
}

#[test]
fn good_entry_is_patched_for_the_client() {
    let cache = filled_cache();
    let packet = query(b"\x07ExAmPlE\x03com\x00", 0xBEEF, Some(4096));
    let outcome = route(&packet, client(), T0 + 10, &LIMITS, &cache);
    let mut expected = stored_answer(40);
    expected[0] = 0xBE;
    expected[1] = 0xEF;
    expected[12..25].copy_from_slice(b"\x07ExAmPlE\x03com\x00");
    match outcome.action {
        Action::Reply(reply) => assert_eq!(reply, expected),
        _ => panic!("a reply was due"),
    }
    assert_eq!(outcome.tally, tally(0, 0, 1, 0));
}

#[test]
fn entry_longer_than_the_payload_limit_is_truncated() {
    let cache = filled_cache();
    let packet = query(b"\x07ExAmPlE\x03com\x00", 0x0BAD, Some(30));
    let outcome = route(&packet, client(), T0 + 20, &LIMITS, &cache);
    match outcome.action {
        Action::Reply(reply) => {
            assert_eq!(reply, truncated(b"\x07ExAmPlE\x03com\x00", 0x0BAD));
            assert_eq!(reply[2] & 0x02, 0x02);
            assert_eq!(&reply[6..8], &[0, 0]);
            assert!(reply.len() <= 12 + 13 + 4);
        },
        _ => panic!("a reply was due"),
    }
    assert_eq!(outcome.tally, tally(0, 0, 1, 0));
}

#[test]
fn stale_entry_is_counted_and_the_query_forwarded() {
    let cache = filled_cache();
    let packet = query(b"\x07ExAmPlE\x03com\x00", 0x0C0C, Some(4096));
    let outcome = route(&packet, client(), T0 + 301, &LIMITS, &cache);
    match outcome.action {
        Action::Forward(record) => {
            assert_eq!(record.protocol, Protocol::Udp);
            assert_eq!(record.origin, client());
            assert_eq!(record.received_at, T0 + 301);
            assert_eq!(record.question.tid(), 0x0C0C);
            assert_eq!(record.question.qname(), b"\x07ExAmPlE\x03com\x00");
            assert_eq!(record.question.payload_size(), 4096);
        },
        _ => panic!("the query was to be forwarded"),
    }
    assert_eq!(outcome.tally, tally(0, 0, 0, 1));
    // The first stale instant, and the last good one.
    let at_expiry = route(&packet, client(), T0 + 300, &LIMITS, &cache);
    assert!(matches!(at_expiry.action, Action::Forward(_)));
    assert_eq!(at_expiry.tally, tally(0, 0, 0, 1));
    let before = route(&packet, client(), T0 + 299, &LIMITS, &cache);
    assert!(matches!(before.action, Action::Reply(_)));
}

#[test]
fn short_datagram_is_dropped_unread() {
    let cache = filled_cache();
    let outcome = route(&[0u8; 8], client(), T0, &LIMITS, &cache);
    assert!(matches!(outcome.action, Action::Drop));
    assert_eq!(outcome.tally, tally(1, 0, 0, 0));
}

#[test]
fn size_limits_include_both_ends() {
    let cache = Cache::new();
    // Seventeen bytes: the header, the root name, type and class.
    let smallest = query(b"\x00", 1, None);
    assert_eq!(smallest.len(), 17);
    let outcome = route(&smallest, client(), T0, &LIMITS, &cache);
    assert!(matches!(outcome.action, Action::Forward(_)));
    assert_eq!(outcome.tally, tally(0, 0, 0, 0));
    let outcome = route(&smallest[..16], client(), T0, &LIMITS, &cache);
    assert!(matches!(outcome.action, Action::Drop));
    assert_eq!(outcome.tally, tally(1, 0, 0, 0));
    let mut largest = query(EXAMPLE, 1, None);
    largest.resize(283, 0);
    let outcome = route(&largest, client(), T0, &LIMITS, &cache);
    assert!(matches!(outcome.action, Action::Forward(_)));
    largest.push(0);
    let outcome = route(&largest, client(), T0, &LIMITS, &cache);
    assert!(matches!(outcome.action, Action::Drop));
    assert_eq!(outcome.tally, tally(1, 0, 0, 0));
}

#[test]
fn oversized_datagram_is_not_answered_even_if_cached() {
    let cache = filled_cache();
    let mut packet = query(EXAMPLE, 1, None);
    packet.resize(284, 0);
    let outcome = route(&packet, client(), T0, &LIMITS, &cache);
    assert!(matches!(outcome.action, Action::Drop));
    assert_eq!(outcome.tally, tally(1, 0, 0, 0));
}

#[test]
fn unparseable_datagram_is_dropped() {
    let cache = filled_cache();
    let mut packet = query(EXAMPLE, 1, None);
    packet[5] = 2;
    let outcome = route(&packet, client(), T0, &LIMITS, &cache);
    assert!(matches!(outcome.action, Action::Drop));
    assert_eq!(outcome.tally, tally(0, 1, 0, 0));
}

#[test]
fn unknown_question_is_forwarded() {
    let cache = filled_cache();
    let origin = ClientOrigin::Datagram(
        PeerAddress::V6 { ipv6: 1, port: 5353, flowinfo: 0, scope_id: 2 },
    );
    let packet = query(b"\x07example\x03org\x00", 0x4242, None);
    let outcome = route(&packet, origin, T0 + 1, &LIMITS, &cache);
    match outcome.action {
        Action::Forward(record) => {
            assert_eq!(record.protocol, Protocol::Udp);
            assert_eq!(record.origin, origin);
            assert_eq!(record.received_at, T0 + 1);
            assert_eq!(record.question.qname_canonical(), b"\x07example\x03org\x00");
            assert_eq!(record.question.payload_size(), 512);
        },
        _ => panic!("the query was to be forwarded"),
    }
    assert_eq!(outcome.tally, tally(0, 0, 0, 0));
}

#[test]
fn truncation_starts_one_byte_above_the_payload_limit() {
    for len in [29usize, 40, 200] {
        let stored = stored_answer(len);
        let fits = normalize(&query(EXAMPLE, 0x0101, Some(len as u16)), true).unwrap();
        let mut expected = stored.clone();
        expected[0] = 1;
        expected[1] = 1;
        assert_eq!(reply_to_hit(&stored, &fits), expected);
        let short = normalize(&query(EXAMPLE, 0x0101, Some(len as u16 - 1)), true).unwrap();
        assert_eq!(reply_to_hit(&stored, &short), truncated(EXAMPLE, 0x0101));
    }
}

#[test]
fn legacy_client_gets_at_most_512_bytes() {
    let mut cache = Cache::new();
    cache.insert(example_key(), stored_answer(512), 60, T0);
    let packet = query(EXAMPLE, 0x0707, None);
    match route(&packet, client(), T0, &LIMITS, &cache).action {
        Action::Reply(reply) => assert_eq!(reply.len(), 512),
        _ => panic!("a reply was due"),
    }
    cache.insert(example_key(), stored_answer(513), 60, T0);
    match route(&packet, client(), T0, &LIMITS, &cache).action {
        Action::Reply(reply) => assert_eq!(reply, truncated(EXAMPLE, 0x0707)),
        _ => panic!("a reply was due"),
    }
}

#[test]
fn decision_follows_what_was_found() {
    let entry = CacheEntry { packet: stored_answer(40), expires_at: 100 };
    let ask = || normalize(&query(b"\x07EXAMPLE\x03com\x00", 0x1111, Some(1232)), true).unwrap();
    let hit = decide(ask(), Some(&entry), client(), 99);
    assert!(matches!(hit.action, Action::Reply(_)));
    assert_eq!(hit.tally, tally(0, 0, 1, 0));
    let stale = decide(ask(), Some(&entry), client(), 100);
    assert!(matches!(stale.action, Action::Forward(_)));
    assert_eq!(stale.tally, tally(0, 0, 0, 1));
    let miss = decide(ask(), None, ClientOrigin::Stream(7), 100);
    match miss.action {
        Action::Forward(record) => assert_eq!(record.origin, ClientOrigin::Stream(7)),
        _ => panic!("the query was to be forwarded"),
    }
    assert_eq!(miss.tally, tally(0, 0, 0, 0));
}

#[test]
fn screening_turns_away_what_is_no_question() {
    let outcome = screen(&[0u8; 8], &LIMITS).err().unwrap();
    assert!(matches!(outcome.action, Action::Drop));
    assert_eq!(outcome.tally, tally(1, 0, 0, 0));
    let outcome = screen(&[0u8; 20], &LIMITS).err().unwrap();
    assert!(matches!(outcome.action, Action::Drop));
    assert_eq!(outcome.tally, tally(0, 1, 0, 0));
    let question = screen(&query(EXAMPLE, 0x0909, Some(1232)), &LIMITS).ok().unwrap();
    assert_eq!(question.tid(), 0x0909);
    assert_eq!(question.payload_size(), 1232);
}

#[test]
fn shared_cache_is_routed_against_like_a_cache_of_ones_own() {
    let cache = SharedCache::new(4);
    let packet = query(b"\x07ExAmPlE\x03com\x00", 0xBEEF, Some(4096));
    let miss = route_shared(&packet, client(), T0, &LIMITS, &cache);
    assert!(matches!(miss.action, Action::Forward(_)));
    assert_eq!(miss.tally, tally(0, 0, 0, 0));
    cache.insert(example_key(), stored_answer(40), 300, T0);
    let hit = route_shared(&packet, client(), T0 + 10, &LIMITS, &cache);
    let mut expected = stored_answer(40);
    expected[0] = 0xBE;
    expected[1] = 0xEF;
    expected[12..25].copy_from_slice(b"\x07ExAmPlE\x03com\x00");
    match hit.action {
        Action::Reply(reply) => assert_eq!(reply, expected),
        _ => panic!("a reply was due"),
    }
    assert_eq!(hit.tally, tally(0, 0, 1, 0));
    let small = query(b"\x07ExAmPlE\x03com\x00", 0xBEEF, Some(30));
    match route_shared(&small, client(), T0 + 20, &LIMITS, &cache).action {
        Action::Reply(reply) => assert_eq!(reply, truncated(b"\x07ExAmPlE\x03com\x00", 0xBEEF)),
        _ => panic!("a reply was due"),
    }
    let stale = route_shared(&packet, client(), T0 + 301, &LIMITS, &cache);
    assert!(matches!(stale.action, Action::Forward(_)));
    assert_eq!(stale.tally, tally(0, 0, 0, 1));
    let dropped = route_shared(&[0u8; 8], client(), T0, &LIMITS, &cache);
    assert!(matches!(dropped.action, Action::Drop));
    assert_eq!(dropped.tally, tally(1, 0, 0, 0));
    // The locks were given back: the cache can still be written to.
    cache.insert(example_key(), stored_answer(29), 1, T0 + 400);
    assert_eq!(cache.lookup(&example_key()).unwrap().expires_at, T0 + 401);
}
