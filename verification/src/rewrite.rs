//! The packet rewriter: from one cached answer, or from the question alone,
//! to the bytes that go back to one client.

use vstd::prelude::*;
use crate::edns::legacy_edns;
use crate::name::{
    canonical, is_letter, lemma_plain_name_in_place, lemma_same_folding, lower, to_lower,
};
use crate::question::{parsed, CacheKey, KeyModel, NormalizedQuestion, QuestionModel};
use crate::wire::{
    be16, copy_bytes, high_byte, ANCOUNT_AT, ARCOUNT_AT, NSCOUNT_AT, low_byte, read_be16, split_be16, FLAGS_AT, FLAG_QR, FLAG_TC, HEADER_LEN,
    QDCOUNT_AT, QUESTION_FIXED_LEN, TRUNCATED_FLAGS,
};

verus! {

/// Whether `packet` is an answer to the question that `key` stands for: a
/// response with one question, which holds the key's name in some letter
/// case right behind the header, followed by the key's type and class.
pub open spec fn answers(packet: Seq<u8>, key: KeyModel) -> bool {
    let n = key.name.len();
    &&& packet.len() >= HEADER_LEN + n + QUESTION_FIXED_LEN
    &&& packet[FLAGS_AT as int] >= FLAG_QR
    &&& be16(packet, QDCOUNT_AT as int) == 1
    &&& canonical(packet.subrange(HEADER_LEN as int, HEADER_LEN + n)) == key.name
    &&& be16(packet, HEADER_LEN + n) == key.qtype
    &&& be16(packet, HEADER_LEN + n + 2) == key.qclass
}

/// `entry` with its transaction id set to `tid` and the bytes of its
/// question name set to `qname`; every other byte as it was.
pub open spec fn patched(entry: Seq<u8>, tid: u16, qname: Seq<u8>) -> Seq<u8> {
    Seq::new(
        entry.len(),
        |i: int|
            if i == 0 {
                high_byte(tid)
            } else if i == 1 {
                low_byte(tid)
            } else if HEADER_LEN <= i && i < HEADER_LEN + qname.len() {
                qname[i - HEADER_LEN]
            } else {
                entry[i]
            },
    )
}

/// The header of a truncated reply to a request with transaction id `tid`:
/// response and truncation bits set, one question, no records.
pub open spec fn truncated_header(tid: u16) -> Seq<u8> {
    seq![high_byte(tid), low_byte(tid), TRUNCATED_FLAGS, 0u8, 0u8, 1u8, 0u8, 0u8, 0u8, 0u8, 0u8, 0u8]
}

/// The truncated reply to a question: the header, then the question echoed
/// in the client's letter case.
pub open spec fn truncated_reply(q: QuestionModel) -> Seq<u8> {
    truncated_header(q.tid) + q.qname + seq![
        high_byte(q.qtype),
        low_byte(q.qtype),
        high_byte(q.qclass),
        low_byte(q.qclass),
    ]
}

/// Whether the bit `flag` is set in `byte`.
pub open spec fn has_flag(byte: u8, flag: u8) -> bool {
    byte & flag == flag
}

/// Tests whether `packet` is an answer to the question that `key` stands for.
pub fn is_answer_to(packet: &[u8], key: &CacheKey) -> (yes: bool)
    ensures
        yes == answers(packet@, key@),
{
    let n: usize = key.name.len();
    if packet.len() < HEADER_LEN + QUESTION_FIXED_LEN || packet.len() - HEADER_LEN
        - QUESTION_FIXED_LEN < n {
        return false;
    }
    if packet[FLAGS_AT] < FLAG_QR || read_be16(packet, QDCOUNT_AT) != 1 {
        return false;
    }
    let ghost held = packet@.subrange(HEADER_LEN as int, HEADER_LEN + n);
    let mut i: usize = 0;
    while i < n
        invariant
            i <= n,
            n == key.name@.len(),
            HEADER_LEN + n + 4 <= usize::MAX,
            packet@.len() >= HEADER_LEN + n + 4,
            held == packet@.subrange(HEADER_LEN as int, HEADER_LEN + n),
            forall|j: int| 0 <= j < i ==> lower(held[j]) == key.name@[j],
        decreases n - i,
    {
        if to_lower(packet[HEADER_LEN + i]) != key.name[i] {
            return false;
        }
        i = i + 1;
    }
    assert(canonical(held) =~= key.name@);
    read_be16(packet, HEADER_LEN + n) == key.qtype && read_be16(packet, HEADER_LEN + n + 2)
        == key.qclass
}

/// Makes one client's reply out of a cached answer: a copy with the
/// transaction id of the client's request and the question name in the
/// client's letter case. The cached bytes themselves are not touched.
pub fn patch_for_client(entry_packet: &[u8], question: &NormalizedQuestion) -> (out: Vec<u8>)
    requires
        answers(entry_packet@, question@.key()),
    ensures
        out@ == patched(entry_packet@, question@.tid, question@.qname),
{
    let qname = question.qname();
    let n: usize = qname.len();
    let mut out: Vec<u8> = copy_bytes(entry_packet);
    assert(HEADER_LEN + n <= out.len());
    let (hi, lo) = split_be16(question.tid());
    out.set(0, hi);
    out.set(1, lo);
    let mut i: usize = 0;
    while i < n
        invariant
            i <= n,
            n == qname@.len(),
            HEADER_LEN + n <= usize::MAX,
            out@.len() == entry_packet@.len(),
            out@.len() >= HEADER_LEN + n,
            out@[0] == hi,
            out@[1] == lo,
            forall|j: int| HEADER_LEN <= j < HEADER_LEN + i ==> out@[j] == qname@[j - HEADER_LEN],
            forall|j: int|
                2 <= j < out@.len() && !(HEADER_LEN <= j < HEADER_LEN + i) ==> out@[j]
                    == entry_packet@[j],
        decreases n - i,
    {
        out.set(HEADER_LEN + i, qname[i]);
        i = i + 1;
    }
    out
}

/// Builds the reply that tells a client to come back over a stream: header
/// and echoed question only, with the truncation bit set.
pub fn build_truncated_reply(question: &NormalizedQuestion) -> (out: Vec<u8>)
    ensures
        out@ == truncated_reply(question@),
{
    let (tid_hi, tid_lo) = split_be16(question.tid());
    let mut out: Vec<u8> = Vec::new();
    out.push(tid_hi);
    out.push(tid_lo);
    out.push(TRUNCATED_FLAGS);
    out.push(0);
    out.push(0);
    out.push(1);
    out.push(0);
    out.push(0);
    out.push(0);
    out.push(0);
    out.push(0);
    out.push(0);
    let qname = question.qname();
    let mut i: usize = 0;
    while i < qname.len()
        invariant
            i <= qname@.len(),
            out@ == truncated_header(question@.tid) + qname@.subrange(0, i as int),
        decreases qname@.len() - i,
    {
        out.push(qname[i]);
        i = i + 1;
    }
    let (type_hi, type_lo) = split_be16(question.qtype());
    let (class_hi, class_lo) = split_be16(question.qclass());
    out.push(type_hi);
    out.push(type_lo);
    out.push(class_hi);
    out.push(class_lo);
    out
}

/// One cached answer serves every request for its key: the replies to two
/// questions with the same key, patched from the same cached bytes, are as
/// long as those bytes, each carries its own transaction id and its own
/// spelling of the name, and a byte in which the two differ, or in which one
/// differs from the cached bytes, is a byte of the transaction id or a
/// letter of the name that differs in case only. Length bytes of labels are
/// no letters, so none of them changes.
pub proof fn lemma_patches_differ_in_tid_and_case_only(
    entry: Seq<u8>,
    a: QuestionModel,
    b: QuestionModel,
)
    requires
        a.wf(),
        b.wf(),
        a.key() == b.key(),
        answers(entry, a.key()),
    ensures
        ({
            let n = a.qname.len();
            let pa = patched(entry, a.tid, a.qname);
            let pb = patched(entry, b.tid, b.qname);
            &&& b.qname.len() == n
            &&& pa.len() == entry.len()
            &&& pb.len() == entry.len()
            &&& be16(pa, 0) == a.tid
            &&& be16(pb, 0) == b.tid
            &&& pa.subrange(HEADER_LEN as int, HEADER_LEN + n) == a.qname
            &&& pb.subrange(HEADER_LEN as int, HEADER_LEN + n) == b.qname
            &&& forall|i: int|
                0 <= i < entry.len() && pa[i] != pb[i] ==> i < 2 || (HEADER_LEN <= i < HEADER_LEN
                    + n && is_letter(pa[i]) && is_letter(pb[i]) && lower(pa[i]) == lower(pb[i]))
            &&& forall|i: int|
                0 <= i < entry.len() && pa[i] != entry[i] ==> i < 2 || (HEADER_LEN <= i
                    < HEADER_LEN + n && is_letter(pa[i]) && is_letter(entry[i]) && lower(pa[i])
                    == lower(entry[i]))
        }),
{
    let n = a.qname.len();
    let pa = patched(entry, a.tid, a.qname);
    let pb = patched(entry, b.tid, b.qname);
    let held = entry.subrange(HEADER_LEN as int, HEADER_LEN + n);
    assert forall|i: int| 0 <= i < entry.len() && pa[i] != pb[i] implies i < 2 || (HEADER_LEN <= i
        < HEADER_LEN + n && is_letter(pa[i]) && is_letter(pb[i]) && lower(pa[i]) == lower(pb[i])) by {
        if HEADER_LEN <= i < HEADER_LEN + n {
            let j = i - HEADER_LEN;
            assert(canonical(b.qname)[j] == lower(b.qname[j]));
            lemma_same_folding(a.qname[j], b.qname[j]);
        }
    }
    assert forall|i: int| 0 <= i < entry.len() && pa[i] != entry[i] implies i < 2 || (HEADER_LEN
        <= i < HEADER_LEN + n && is_letter(pa[i]) && is_letter(entry[i]) && lower(pa[i]) == lower(
        entry[i],
    )) by {
        if HEADER_LEN <= i < HEADER_LEN + n {
            let j = i - HEADER_LEN;
            assert(canonical(held)[j] == lower(held[j]));
            lemma_same_folding(a.qname[j], entry[i]);
        }
    }
}

/// A patched reply is still an answer to the key it was cached under.
pub proof fn lemma_patched_answers(entry: Seq<u8>, q: QuestionModel)
    requires
        q.wf(),
        answers(entry, q.key()),
    ensures
        answers(patched(entry, q.tid, q.qname), q.key()),
{
    let n = q.qname.len();
    let p = patched(entry, q.tid, q.qname);
    assert(p.subrange(HEADER_LEN as int, HEADER_LEN + n) =~= q.qname);
}

/// The shape of a truncated reply: header and echoed question and no byte
/// more, marked as a truncated response, with the request's transaction id,
/// one question and no record in any section.
pub proof fn lemma_truncated_reply_shape(q: QuestionModel)
    ensures
        ({
            let r = truncated_reply(q);
            let n = q.qname.len();
            &&& r.len() == HEADER_LEN + n + QUESTION_FIXED_LEN
            &&& be16(r, 0) == q.tid
            &&& has_flag(r[FLAGS_AT as int], FLAG_QR)
            &&& has_flag(r[FLAGS_AT as int], FLAG_TC)
            &&& be16(r, QDCOUNT_AT as int) == 1
            &&& be16(r, ANCOUNT_AT as int) == 0
            &&& be16(r, NSCOUNT_AT as int) == 0
            &&& be16(r, ARCOUNT_AT as int) == 0
            &&& r.subrange(HEADER_LEN as int, HEADER_LEN + n) == q.qname
            &&& be16(r, HEADER_LEN + n) == q.qtype
            &&& be16(r, HEADER_LEN + n + 2) == q.qclass
        }),
{
    assert(0x82u8 & 0x80u8 == 0x80u8) by (bit_vector);
    assert(0x82u8 & 0x02u8 == 0x02u8) by (bit_vector);
}

/// A truncated reply holds its question as a well-formed message does: it
/// is an answer to the question's key, and read as a message it gives the
/// question back, with the values of a client that states nothing
/// through EDNS0.
pub proof fn lemma_truncated_reply_echoes_question(q: QuestionModel, accept_edns: bool)
    requires
        q.wf(),
    ensures
        answers(truncated_reply(q), q.key()),
        parsed(truncated_reply(q), accept_edns) == Some(
            QuestionModel {
                payload_size: legacy_edns().payload_size,
                dnssec_ok: legacy_edns().dnssec_ok,
                ..q
            },
        ),
{
    let r = truncated_reply(q);
    let n = q.qname.len();
    lemma_truncated_reply_shape(q);
    lemma_plain_name_in_place(r, HEADER_LEN as int, HEADER_LEN + n, HEADER_LEN as int);
}

} // verus!
