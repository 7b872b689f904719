use rpdns::question::{normalize, ParseError};

fn header(tid: u16, qd: u16, an: u16, ns: u16, ar: u16) -> Vec<u8> {
    let mut h = vec![(tid >> 8) as u8, tid as u8, 0x01, 0x00];
    for count in [qd, an, ns, ar] {
        h.push((count >> 8) as u8);
        h.push(count as u8);
    }
    h
}

fn query(name: &[u8], tid: u16, qtype: u16, qclass: u16) -> Vec<u8> {
    let mut packet = header(tid, 1, 0, 0, 0);
    packet.extend_from_slice(name);
    packet.extend_from_slice(&[(qtype >> 8) as u8, qtype as u8, (qclass >> 8) as u8, qclass as u8]);
    packet
}

fn with_counts(mut packet: Vec<u8>, an: u16, ns: u16, ar: u16) -> Vec<u8> {
    packet[6] = (an >> 8) as u8;
    packet[7] = an as u8;
    packet[8] = (ns >> 8) as u8;
    packet[9] = ns as u8;
    packet[10] = (ar >> 8) as u8;
    packet[11] = ar as u8;
    packet
}

fn opt_record(payload: u16, dnssec_ok: bool) -> Vec<u8> {
    let flags = if dnssec_ok { 0x80 } else { 0x00 };
    vec![0, 0, 41, (payload >> 8) as u8, payload as u8, 0, 0, flags, 0, 0, 0]
}

fn address_record(owner: &[u8]) -> Vec<u8> {
    let mut record = owner.to_vec();
    record.extend_from_slice(&[0, 1, 0, 1, 0, 0, 0, 60, 0, 4, 192, 0, 2, 1]);
    record
}

const EXAMPLE: &[u8] = b"\x07example\x03com\x00";

#[test]
fn plain_question_is_read() {
    let packet = query(b"\x07ExAmPlE\x03com\x00", 0xBEEF, 1, 1);
    let question = normalize(&packet, true).unwrap();
    assert_eq!(question.qname(), b"\x07ExAmPlE\x03com\x00");
    assert_eq!(question.qname_canonical(), EXAMPLE);
    assert_eq!(question.tid(), 0xBEEF);
    assert_eq!(question.qtype(), 1);
    assert_eq!(question.qclass(), 1);
    assert_eq!(question.payload_size(), 512);
    assert!(!question.dnssec_ok());
}

#[test]
fn type_and_class_are_read_big_endian() {
    let packet = query(EXAMPLE, 0x0102, 0x001C, 0x00FF);
    let question = normalize(&packet, false).unwrap();
    assert_eq!(question.tid(), 0x0102);
    assert_eq!(question.qtype(), 28);
    assert_eq!(question.qclass(), 255);
}

#[test]
fn letter_case_and_transaction_id_do_not_change_the_key() {
    let lower = normalize(&query(b"\x07example\x03com\x00", 1, 1, 1), true).unwrap();
    let mixed = normalize(&query(b"\x07ExAmPlE\x03CoM\x00", 0xFFFF, 1, 1), true).unwrap();
    let (a, b) = (lower.key(), mixed.key());
    assert_eq!(a.name, b.name);
    assert_eq!(a.name, EXAMPLE);
    assert_eq!((a.qtype, a.qclass, a.dnssec_ok), (b.qtype, b.qclass, b.dnssec_ok));
    assert_eq!(mixed.qname(), b"\x07ExAmPlE\x03CoM\x00");
}

#[test]
fn only_letters_are_folded() {
    let packet = query(b"\x05@[`{Z\x00", 7, 1, 1);
    let question = normalize(&packet, true).unwrap();
    assert_eq!(question.qname_canonical(), b"\x05@[`{z\x00");
}

#[test]
fn type_class_and_dnssec_bit_are_part_of_the_key() {
    let mut secured = query(EXAMPLE, 1, 1, 1);
    secured.extend_from_slice(&opt_record(1232, true));
    let secured = with_counts(secured, 0, 0, 1);
    let plain = normalize(&query(EXAMPLE, 1, 1, 1), true).unwrap().key();
    let text = normalize(&query(EXAMPLE, 1, 16, 1), true).unwrap().key();
    let secured = normalize(&secured, true).unwrap().key();
    assert_eq!(plain.name, text.name);
    assert_eq!(plain.name, secured.name);
    assert_ne!(plain.qtype, text.qtype);
    assert!(!plain.dnssec_ok);
    assert!(secured.dnssec_ok);
}

#[test]
fn root_name_is_read() {
    let question = normalize(&query(b"\x00", 9, 2, 1), true).unwrap();
    assert_eq!(question.qname(), b"\x00");
    assert_eq!(question.qtype(), 2);
}

#[test]
fn short_header_is_rejected() {
    let packet = query(EXAMPLE, 1, 1, 1);
    assert_eq!(normalize(&packet[..11], true).err(), Some(ParseError));
    assert_eq!(normalize(&[], true).err(), Some(ParseError));
    assert!(normalize(&packet[..12], true).is_err());
}

#[test]
fn question_count_other_than_one_is_rejected() {
    let mut none = query(EXAMPLE, 1, 1, 1);
    none[5] = 0;
    assert!(normalize(&none, true).is_err());
    let mut two = query(EXAMPLE, 1, 1, 1);
    two[5] = 2;
    two.extend_from_slice(b"\x03org\x00\x00\x01\x00\x01");
    assert!(normalize(&two, true).is_err());
    let mut many = query(EXAMPLE, 1, 1, 1);
    many[4] = 1;
    assert!(normalize(&many, true).is_err());
}

#[test]
fn label_that_leaves_the_message_is_rejected() {
    let mut packet = header(1, 1, 0, 0, 0);
    packet.extend_from_slice(b"\x07exam");
    assert!(normalize(&packet, true).is_err());
}

#[test]
fn name_without_root_label_is_rejected() {
    let mut packet = header(1, 1, 0, 0, 0);
    packet.extend_from_slice(b"\x07example\x03com");
    assert!(normalize(&packet, true).is_err());
}

#[test]
fn reserved_length_tags_are_rejected() {
    assert!(normalize(&query(b"\x40example\x00", 1, 1, 1), true).is_err());
    assert!(normalize(&query(b"\x80example\x00", 1, 1, 1), true).is_err());
    assert!(normalize(&query(b"\xBFexample\x00", 1, 1, 1), true).is_err());
}

#[test]
fn longest_label_is_accepted() {
    let mut name = vec![63u8];
    name.extend_from_slice(&[b'A'; 63]);
    name.push(0);
    let question = normalize(&query(&name, 1, 1, 1), true).unwrap();
    assert_eq!(question.qname(), &name[..]);
    assert_eq!(question.qname_canonical()[1..64], [b'a'; 63]);
}

#[test]
fn missing_type_or_class_is_rejected() {
    let packet = query(EXAMPLE, 1, 1, 1);
    assert!(normalize(&packet[..packet.len() - 1], true).is_err());
    assert!(normalize(&packet[..packet.len() - 4], true).is_err());
    assert!(normalize(&packet, true).is_ok());
}

#[test]
fn pointer_that_loops_is_rejected() {
    // The pointer at offset 16 names offset 12, where its own run began.
    let packet = query(b"\x03foo\xC0\x0C", 1, 1, 1);
    assert!(normalize(&packet, true).is_err());
    // A pointer that names itself.
    let packet = query(b"\xC0\x0C", 1, 1, 1);
    assert!(normalize(&packet, true).is_err());
}

#[test]
fn pointer_that_goes_forward_is_rejected() {
    let mut packet = query(b"\x03foo\xC0\x16", 1, 1, 1);
    packet.extend_from_slice(b"\x03bar\x00");
    assert!(normalize(&packet, true).is_err());
    // Beyond the end of the message.
    let packet = query(b"\x03foo\xFF\xFF", 1, 1, 1);
    assert!(normalize(&packet, true).is_err());
}

#[test]
fn pointer_cut_short_is_rejected() {
    let mut packet = header(1, 1, 0, 0, 0);
    packet.extend_from_slice(b"\x03foo\xC0");
    assert!(normalize(&packet, true).is_err());
}

#[test]
fn backward_pointer_is_followed() {
    // Offset 4 holds the question count, 00 01: read as a name, the root label.
    let packet = query(b"\x03foo\xC0\x04", 0x0A0B, 15, 1);
    let question = normalize(&packet, true).unwrap();
    assert_eq!(question.qname(), b"\x03foo\x00");
    assert_eq!(question.qtype(), 15);
    assert_eq!(question.qclass(), 1);
    // Offset 5 holds 01 00 00: a label of one zero byte, then the root label.
    let packet = query(b"\x03Foo\xC0\x05", 1, 1, 1);
    let question = normalize(&packet, true).unwrap();
    assert_eq!(question.qname(), b"\x03Foo\x01\x00\x00");
    assert_eq!(question.qname_canonical(), b"\x03foo\x01\x00\x00");
}

#[test]
fn chained_pointers_must_each_go_backward() {
    // Offset 12: a pointer to offset 6. Offset 6: a pointer to offset 4,
    // where the question count reads as the root label.
    let mut packet = with_counts(query(b"\xC0\x06", 1, 1, 1), 0xC004, 0, 0);
    let question = normalize(&packet, false).unwrap();
    assert_eq!(question.qname(), b"\x00");
    assert_eq!(question.qtype(), 1);
    // Offset 6: a pointer to offset 6, where its own run began.
    packet[7] = 6;
    assert!(normalize(&packet, false).is_err());
    // Offset 6: a pointer to offset 8, ahead of its run though behind the
    // pointer that led to it.
    packet[7] = 8;
    assert!(normalize(&packet, false).is_err());
}

#[test]
fn opt_record_gives_payload_size_and_dnssec_bit() {
    let mut packet = query(b"\x07ExAmPlE\x03com\x00", 0xBEEF, 1, 1);
    packet.extend_from_slice(&opt_record(4096, true));
    let packet = with_counts(packet, 0, 0, 1);
    assert_eq!(packet.len(), 40);
    let question = normalize(&packet, true).unwrap();
    assert_eq!(question.payload_size(), 4096);
    assert!(question.dnssec_ok());
    assert_eq!(question.qname(), b"\x07ExAmPlE\x03com\x00");
}

#[test]
fn advertised_payload_size_is_taken_as_it_is() {
    let mut packet = query(EXAMPLE, 1, 1, 1);
    packet.extend_from_slice(&opt_record(30, false));
    let question = normalize(&with_counts(packet, 0, 0, 1), true).unwrap();
    assert_eq!(question.payload_size(), 30);
    assert!(!question.dnssec_ok());
}

#[test]
fn dnssec_bit_is_the_top_bit_only() {
    let mut packet = query(EXAMPLE, 1, 1, 1);
    let mut opt = opt_record(1232, false);
    opt[7] = 0x7F;
    packet.extend_from_slice(&opt);
    let question = normalize(&with_counts(packet, 0, 0, 1), true).unwrap();
    assert!(!question.dnssec_ok());
    assert_eq!(question.payload_size(), 1232);
}

#[test]
fn without_edns_the_records_are_not_read() {
    let mut packet = query(EXAMPLE, 1, 1, 1);
    packet.extend_from_slice(&opt_record(4096, true));
    let packet = with_counts(packet, 0, 0, 1);
    let question = normalize(&packet, false).unwrap();
    assert_eq!(question.payload_size(), 512);
    assert!(!question.dnssec_ok());
    // Records that are announced and not there.
    let packet = with_counts(query(EXAMPLE, 1, 1, 1), 3, 2, 1);
    assert!(normalize(&packet, false).is_ok());
    assert!(normalize(&packet, true).is_err());
}

#[test]
fn record_that_leaves_the_message_is_rejected() {
    let mut packet = query(EXAMPLE, 1, 1, 1);
    let mut opt = opt_record(4096, false);
    opt[10] = 1;
    packet.extend_from_slice(&opt);
    let packet = with_counts(packet, 0, 0, 1);
    assert!(normalize(&packet, true).is_err());
    let mut whole = packet.clone();
    whole.push(0);
    assert_eq!(normalize(&whole, true).unwrap().payload_size(), 4096);
    assert!(normalize(&packet[..packet.len() - 2], true).is_err());
}

#[test]
fn second_opt_record_is_rejected() {
    let mut packet = query(EXAMPLE, 1, 1, 1);
    packet.extend_from_slice(&opt_record(4096, false));
    packet.extend_from_slice(&opt_record(1232, true));
    assert!(normalize(&with_counts(packet.clone(), 0, 0, 2), true).is_err());
    // Counted as one record, the second is not part of the section.
    let question = normalize(&with_counts(packet, 0, 0, 1), true).unwrap();
    assert_eq!(question.payload_size(), 4096);
}

#[test]
fn opt_record_is_found_behind_other_records() {
    let mut packet = query(EXAMPLE, 1, 1, 1);
    packet.extend_from_slice(&address_record(b"\xC0\x0C"));
    packet.extend_from_slice(&address_record(b"\x02ns\xC0\x0C"));
    packet.extend_from_slice(&address_record(EXAMPLE));
    packet.extend_from_slice(&opt_record(1400, true));
    let question = normalize(&with_counts(packet, 1, 1, 2), true).unwrap();
    assert_eq!(question.payload_size(), 1400);
    assert!(question.dnssec_ok());
}

#[test]
fn opt_record_outside_the_additional_section_does_not_count() {
    let mut packet = query(EXAMPLE, 1, 1, 1);
    packet.extend_from_slice(&opt_record(4096, true));
    let question = normalize(&with_counts(packet, 1, 0, 0), true).unwrap();
    assert_eq!(question.payload_size(), 512);
    assert!(!question.dnssec_ok());
}

#[test]
fn additional_records_without_opt_give_the_legacy_values() {
    let mut packet = query(EXAMPLE, 1, 1, 1);
    packet.extend_from_slice(&address_record(b"\xC0\x0C"));
    let question = normalize(&with_counts(packet, 0, 0, 1), true).unwrap();
    assert_eq!(question.payload_size(), 512);
    assert!(!question.dnssec_ok());
}

#[test]
fn bytes_behind_the_last_record_are_left_alone() {
    let mut packet = query(EXAMPLE, 1, 1, 1);
    packet.extend_from_slice(&[0xFF; 7]);
    assert!(normalize(&packet, true).is_ok());
}
