//! The query normalizer: from the bytes of one query to a validated question
//! and the identity under which its answer is cached.

use vstd::prelude::*;
use crate::edns::{edns_of, legacy_edns, lemma_edns_agrees, read_edns, Edns};
use crate::name::{
    canonical, canonicalize, expand_name, is_plain_name, lemma_name_at_is_plain,
    lemma_plain_name_in_place, lemma_respelled_name, lower, name_at, name_end, skip_name,
};
use crate::wire::{
    be16, copy_bytes, read_be16, HEADER_LEN, LEGACY_PAYLOAD_SIZE, QDCOUNT_AT, QUESTION_FIXED_LEN,
};

verus! {

/// The one way in which a query can be unfit to interpret.
#[derive(Clone, Copy, Debug, PartialEq, Eq)]
pub struct ParseError;

/// What a question is, as mathematics.
pub struct QuestionModel {
    /// The name asked for, uncompressed, in the client's letter case.
    pub qname: Seq<u8>,
    /// The same name with capital letters folded.
    pub qname_canonical: Seq<u8>,
    pub qtype: u16,
    pub qclass: u16,
    /// Transaction id of the request.
    pub tid: u16,
    /// Largest UDP response that the client accepts.
    pub payload_size: u16,
    pub dnssec_ok: bool,
}

/// What a cache key is, as mathematics.
pub struct KeyModel {
    /// The name asked for, uncompressed, capital letters folded.
    pub name: Seq<u8>,
    pub qtype: u16,
    pub qclass: u16,
    pub dnssec_ok: bool,
}

impl QuestionModel {
    /// The name is a complete uncompressed name, and the canonical name is
    /// its folding.
    pub open spec fn wf(self) -> bool {
        &&& is_plain_name(self.qname)
        &&& self.qname_canonical == canonical(self.qname)
    }

    /// The identity under which the answer to this question is cached.
    /// Neither the transaction id, nor the client's letter case, nor its
    /// payload limit is part of it.
    pub open spec fn key(self) -> KeyModel {
        KeyModel {
            name: self.qname_canonical,
            qtype: self.qtype,
            qclass: self.qclass,
            dnssec_ok: self.dnssec_ok,
        }
    }
}

/// The question that a query holds, or `None` where the query is rejected.
///
/// Accepted is a message with a full header and a question count of one,
/// whose question name can be read from behind the header with every
/// compression pointer going strictly backward, and whose type and class
/// follow the name. With `accept_edns` the record sections behind the
/// question must be sound as well, and give the payload limit and the
/// DNSSEC-OK bit; without it they are not looked at.
pub open spec fn parsed(msg: Seq<u8>, accept_edns: bool) -> Option<QuestionModel> {
    if msg.len() < HEADER_LEN || be16(msg, QDCOUNT_AT as int) != 1 {
        None
    } else {
        match (name_at(msg, HEADER_LEN as int, HEADER_LEN as int), name_end(msg, HEADER_LEN as int)) {
            (Some(qname), Some(end)) => {
                if end + QUESTION_FIXED_LEN > msg.len() {
                    None
                } else {
                    let edns = if accept_edns {
                        edns_of(msg, end + QUESTION_FIXED_LEN)
                    } else {
                        Some(legacy_edns())
                    };
                    match edns {
                        None => None,
                        Some(e) => Some(
                            QuestionModel {
                                qname,
                                qname_canonical: canonical(qname),
                                qtype: be16(msg, end),
                                qclass: be16(msg, end + 2),
                                tid: be16(msg, 0),
                                payload_size: e.payload_size,
                                dnssec_ok: e.dnssec_ok,
                            },
                        ),
                    }
                }
            },
            _ => None,
        }
    }
}

/// The validated question of one query. It is made by `normalize` and never
/// changed afterwards.
#[derive(Debug)]
pub struct NormalizedQuestion {
    qname: Vec<u8>,
    qname_canonical: Vec<u8>,
    qtype: u16,
    qclass: u16,
    tid: u16,
    payload_size: u16,
    dnssec_ok: bool,
}

impl View for NormalizedQuestion {
    type V = QuestionModel;

    closed spec fn view(&self) -> QuestionModel {
        QuestionModel {
            qname: self.qname@,
            qname_canonical: self.qname_canonical@,
            qtype: self.qtype,
            qclass: self.qclass,
            tid: self.tid,
            payload_size: self.payload_size,
            dnssec_ok: self.dnssec_ok,
        }
    }
}

/// The identity under which an answer is cached.
#[derive(Clone, Debug, PartialEq, Eq, Hash)]
pub struct CacheKey {
    /// The name asked for, uncompressed, capital letters folded.
    pub name: Vec<u8>,
    pub qtype: u16,
    pub qclass: u16,
    pub dnssec_ok: bool,
}

impl View for CacheKey {
    type V = KeyModel;

    open spec fn view(&self) -> KeyModel {
        KeyModel {
            name: self.name@,
            qtype: self.qtype,
            qclass: self.qclass,
            dnssec_ok: self.dnssec_ok,
        }
    }
}

impl NormalizedQuestion {
    #[verifier::type_invariant]
    spec fn well_formed(&self) -> bool {
        self@.wf()
    }

    /// The name asked for, uncompressed, in the client's letter case.
    pub fn qname(&self) -> (name: &[u8])
        ensures
            name@ == self@.qname,
            self@.wf(),
    {
        proof {
            use_type_invariant(self);
        }
        self.qname.as_slice()
    }

    /// The name asked for with capital letters folded.
    pub fn qname_canonical(&self) -> (name: &[u8])
        ensures
            name@ == self@.qname_canonical,
            self@.wf(),
    {
        proof {
            use_type_invariant(self);
        }
        self.qname_canonical.as_slice()
    }

    pub fn qtype(&self) -> (v: u16)
        ensures
            v == self@.qtype,
    {
        self.qtype
    }

    pub fn qclass(&self) -> (v: u16)
        ensures
            v == self@.qclass,
    {
        self.qclass
    }

    /// Transaction id of the request.
    pub fn tid(&self) -> (v: u16)
        ensures
            v == self@.tid,
    {
        self.tid
    }

    /// Largest UDP response that the client accepts.
    pub fn payload_size(&self) -> (v: u16)
        ensures
            v == self@.payload_size,
    {
        self.payload_size
    }

    pub fn dnssec_ok(&self) -> (v: bool)
        ensures
            v == self@.dnssec_ok,
    {
        self.dnssec_ok
    }

    /// The identity under which the answer to this question is cached.
    pub fn key(&self) -> (key: CacheKey)
        ensures
            key@ == self@.key(),
    {
        let name = copy_bytes(self.qname_canonical.as_slice());
        CacheKey { name, qtype: self.qtype, qclass: self.qclass, dnssec_ok: self.dnssec_ok }
    }
}

/// Every accepted question is well formed.
pub proof fn lemma_parsed_wf(msg: Seq<u8>, accept_edns: bool)
    ensures
        parsed(msg, accept_edns) matches Some(q) ==> q.wf(),
{
    lemma_name_at_is_plain(msg, HEADER_LEN as int, HEADER_LEN as int);
}

/// Questions that differ in transaction id, payload limit and the letter
/// case of the name only are cached under one key.
pub proof fn lemma_key_ignores_tid_and_case(a: QuestionModel, b: QuestionModel)
    requires
        a.wf(),
        b.wf(),
        canonical(a.qname) == canonical(b.qname),
        a.qtype == b.qtype,
        a.qclass == b.qclass,
        a.dnssec_ok == b.dnssec_ok,
    ensures
        a.key() == b.key(),
{
}

/// Whether `respelled` is `msg` with another transaction id and with the
/// question name, which ends at `end`, in another letter case: the two are
/// equally long, differ in the first two bytes at will, hold letters that
/// fold alike throughout the name, and are equal elsewhere.
pub open spec fn respells(msg: Seq<u8>, respelled: Seq<u8>, end: int) -> bool {
    &&& respelled.len() == msg.len()
    &&& forall|i: int| 2 <= i < HEADER_LEN ==> msg[i] == respelled[i]
    &&& forall|i: int| HEADER_LEN <= i < end ==> lower(msg[i]) == lower(respelled[i])
    &&& forall|i: int| end <= i < msg.len() ==> msg[i] == respelled[i]
}

/// The key of a query does not depend on its transaction id or on the
/// letter case of its name: a query whose name is written out without
/// compression, sent again with another transaction id and another
/// spelling, is accepted again, as a question with the new id and the new
/// spelling that is equal in all else, and so with the same key.
pub proof fn lemma_respelled_query_has_same_key(
    msg: Seq<u8>,
    respelled: Seq<u8>,
    end: int,
    accept_edns: bool,
)
    requires
        parsed(msg, accept_edns) is Some,
        HEADER_LEN <= end <= msg.len(),
        is_plain_name(msg.subrange(HEADER_LEN as int, end)),
        respells(msg, respelled, end),
    ensures
        ({
            let q = parsed(msg, accept_edns)->0;
            &&& parsed(respelled, accept_edns) matches Some(r)
            &&& r.key() == q.key()
            &&& r.qname == respelled.subrange(HEADER_LEN as int, end)
            &&& r.tid == be16(respelled, 0)
            &&& r.payload_size == q.payload_size
        }),
{
    let start = HEADER_LEN as int;
    lemma_plain_name_in_place(msg, start, end, start);
    assert forall|i: int| 0 <= i < end - start implies lower(msg.subrange(start, end)[i]) == lower(
        respelled.subrange(start, end)[i],
    ) by {
    }
    lemma_respelled_name(msg.subrange(start, end), respelled.subrange(start, end));
    lemma_plain_name_in_place(respelled, start, end, start);
    if accept_edns {
        lemma_edns_agrees(msg, respelled, end + QUESTION_FIXED_LEN);
    }
}

/// Turns the bytes of one query into its validated question.
///
/// Any length and any content is tolerated: what cannot be read safely is
/// rejected, and nothing is returned of it.
pub fn normalize(packet: &[u8], accept_edns: bool) -> (out: Result<NormalizedQuestion, ParseError>)
    ensures
        match out {
            Ok(q) => parsed(packet@, accept_edns) == Some(q@),
            Err(_) => parsed(packet@, accept_edns) is None,
        },
{
    if packet.len() < HEADER_LEN {
        return Err(ParseError);
    }
    if read_be16(packet, QDCOUNT_AT) != 1 {
        return Err(ParseError);
    }
    let qname: Vec<u8> = match expand_name(packet, HEADER_LEN) {
        Some(qname) => qname,
        None => {
            return Err(ParseError);
        },
    };
    let end: usize = match skip_name(packet, HEADER_LEN) {
        Some(end) => end,
        None => {
            return Err(ParseError);
        },
    };
    if packet.len() - end < QUESTION_FIXED_LEN {
        return Err(ParseError);
    }
    let qtype: u16 = read_be16(packet, end);
    let qclass: u16 = read_be16(packet, end + 2);
    let edns: Edns = if accept_edns {
        match read_edns(packet, end + QUESTION_FIXED_LEN) {
            Some(edns) => edns,
            None => {
                return Err(ParseError);
            },
        }
    } else {
        Edns { payload_size: LEGACY_PAYLOAD_SIZE, dnssec_ok: false }
    };
    let qname_canonical: Vec<u8> = canonicalize(qname.as_slice());
    proof {
        lemma_name_at_is_plain(packet@, HEADER_LEN as int, HEADER_LEN as int);
    }
    Ok(
        NormalizedQuestion {
            qname,
            qname_canonical,
            qtype,
            qclass,
            tid: read_be16(packet, 0),
            payload_size: edns.payload_size,
            dnssec_ok: edns.dnssec_ok,
        },
    )
}

} // verus!
