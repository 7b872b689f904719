//! The dispatch router: what is to be done with one received datagram.
//!
//! The router decides and its caller acts. It is handed the bytes of a
//! datagram, where they came from and when, and gives back the one action
//! to perform and the counters to advance; it keeps nothing between calls.

use vstd::prelude::*;
use crate::cache::{entry_of, found_model, Cache, CacheEntry, EntryModel};
use crate::shared::SharedCache;
use crate::question::{normalize, parsed, KeyModel, NormalizedQuestion, QuestionModel};
use crate::rewrite::{
    answers, build_truncated_reply, has_flag, lemma_truncated_reply_shape, patch_for_client,
    patched, truncated_reply,
};
use crate::wire::{be16, ANCOUNT_AT, FLAGS_AT, FLAG_TC, HEADER_LEN, QUESTION_FIXED_LEN};

verus! {

/// The query lengths that are looked at; both ends are accepted.
#[derive(Clone, Copy, Debug)]
pub struct SizeLimits {
    pub min_len: usize,
    pub max_len: usize,
}

/// The transport that a query arrived over.
#[derive(Clone, Copy, Debug, PartialEq, Eq)]
pub enum Protocol {
    Udp,
    Tcp,
}

/// A socket address as plain numbers.
#[derive(Clone, Copy, Debug, PartialEq, Eq)]
pub enum PeerAddress {
    V4 { ipv4: u32, port: u16 },
    V6 { ipv6: u128, port: u16, flowinfo: u32, scope_id: u32 },
}

/// Where the reply to a query has to go.
#[derive(Clone, Copy, Debug, PartialEq, Eq)]
pub enum ClientOrigin {
    /// The return address of a datagram.
    Datagram(PeerAddress),
    /// The token of an open connection.
    Stream(usize),
}

/// The record of a query that the cache could not answer, as it is handed
/// to the resolvers.
#[derive(Debug)]
pub struct ClientQuery {
    pub protocol: Protocol,
    pub origin: ClientOrigin,
    pub question: NormalizedQuestion,
    /// When the query arrived.
    pub received_at: u64,
}

/// What a miss record is, as mathematics.
pub struct ClientQueryModel {
    pub protocol: Protocol,
    pub origin: ClientOrigin,
    pub question: QuestionModel,
    pub received_at: u64,
}

impl View for ClientQuery {
    type V = ClientQueryModel;

    open spec fn view(&self) -> ClientQueryModel {
        ClientQueryModel {
            protocol: self.protocol,
            origin: self.origin,
            question: self.question@,
            received_at: self.received_at,
        }
    }
}

/// The one thing to do about a datagram.
#[derive(Debug)]
pub enum Action {
    /// Send nothing and forward nothing.
    Drop,
    /// Send these bytes back to where the query came from.
    Reply(Vec<u8>),
    /// Hand this record to the resolvers; if they cannot take it, let it go.
    Forward(ClientQuery),
}

/// What an action is, as mathematics.
pub enum ActionModel {
    Drop,
    Reply(Seq<u8>),
    Forward(ClientQueryModel),
}

impl View for Action {
    type V = ActionModel;

    open spec fn view(&self) -> ActionModel {
        match self {
            Action::Drop => ActionModel::Drop,
            Action::Reply(bytes) => ActionModel::Reply(bytes@),
            Action::Forward(record) => ActionModel::Forward(record@),
        }
    }
}

/// By how much one datagram advances each counter.
#[derive(Clone, Copy, Debug, PartialEq, Eq)]
pub struct Tally {
    /// Queries received.
    pub received: u64,
    /// Queries rejected for their length.
    pub rejected_size: u64,
    /// Queries rejected because they could not be parsed.
    pub rejected_parse: u64,
    /// Queries answered from the cache.
    pub hits: u64,
    /// Queries whose cached answer was found stale.
    pub expired: u64,
}

/// The action to perform for a datagram, and the counters to advance.
#[derive(Debug)]
pub struct Outcome {
    pub action: Action,
    pub tally: Tally,
}

/// What an outcome is, as mathematics.
pub struct OutcomeModel {
    pub action: ActionModel,
    pub tally: Tally,
}

impl View for Outcome {
    type V = OutcomeModel;

    open spec fn view(&self) -> OutcomeModel {
        OutcomeModel { action: self.action@, tally: self.tally }
    }
}

/// The tally of a query that is only counted as received.
pub open spec fn tally_received() -> Tally {
    Tally { received: 1, rejected_size: 0, rejected_parse: 0, hits: 0, expired: 0 }
}

/// The tally of a query rejected for its length.
pub open spec fn tally_rejected_size() -> Tally {
    Tally { received: 1, rejected_size: 1, rejected_parse: 0, hits: 0, expired: 0 }
}

/// The tally of a query rejected because it could not be parsed.
pub open spec fn tally_rejected_parse() -> Tally {
    Tally { received: 1, rejected_size: 0, rejected_parse: 1, hits: 0, expired: 0 }
}

/// The tally of a query answered from the cache.
pub open spec fn tally_hit() -> Tally {
    Tally { received: 1, rejected_size: 0, rejected_parse: 0, hits: 1, expired: 0 }
}

/// The tally of a query whose cached answer was stale.
pub open spec fn tally_expired() -> Tally {
    Tally { received: 1, rejected_size: 0, rejected_parse: 0, hits: 0, expired: 1 }
}

/// Whether a query of `len` bytes is looked at.
pub open spec fn size_accepted(len: nat, limits: SizeLimits) -> bool {
    limits.min_len <= len && len <= limits.max_len
}

/// The reply made from a cached answer that is still good: the cached bytes
/// patched for the client where they fit the client's payload limit, and the
/// truncated reply where they are longer.
pub open spec fn reply_for(entry: Seq<u8>, q: QuestionModel) -> Seq<u8> {
    if entry.len() > q.payload_size {
        truncated_reply(q)
    } else {
        patched(entry, q.tid, q.qname)
    }
}

/// The record of a datagram query that the cache could not answer.
pub open spec fn miss_record(q: QuestionModel, origin: ClientOrigin, now: u64) -> ClientQueryModel {
    ClientQueryModel { protocol: Protocol::Udp, origin, question: q, received_at: now }
}

/// What is done about a question, given what the cache holds for its key:
/// a good entry is answered from, a stale one counted and treated like none,
/// and without an entry the question goes to the resolvers.
pub open spec fn decided(
    q: QuestionModel,
    found: Option<EntryModel>,
    origin: ClientOrigin,
    now: u64,
) -> OutcomeModel {
    match found {
        Some(entry) => {
            if entry.is_expired(now) {
                OutcomeModel {
                    action: ActionModel::Forward(miss_record(q, origin, now)),
                    tally: tally_expired(),
                }
            } else {
                OutcomeModel {
                    action: ActionModel::Reply(reply_for(entry.packet, q)),
                    tally: tally_hit(),
                }
            }
        },
        None => OutcomeModel {
            action: ActionModel::Forward(miss_record(q, origin, now)),
            tally: tally_received(),
        },
    }
}

/// The outcome of a datagram that is turned away before the cache is asked:
/// one of a length that is not accepted is dropped unread, and one that
/// cannot be parsed is dropped. `None` for a datagram that holds a question.
pub open spec fn rejection(packet: Seq<u8>, limits: SizeLimits) -> Option<OutcomeModel> {
    if !size_accepted(packet.len(), limits) {
        Some(OutcomeModel { action: ActionModel::Drop, tally: tally_rejected_size() })
    } else if parsed(packet, true) is None {
        Some(OutcomeModel { action: ActionModel::Drop, tally: tally_rejected_parse() })
    } else {
        None
    }
}

/// What is done about a datagram, where `found` is what the cache holds for
/// its question, if it has one.
pub open spec fn routed_with(
    packet: Seq<u8>,
    origin: ClientOrigin,
    now: u64,
    limits: SizeLimits,
    found: Option<EntryModel>,
) -> OutcomeModel {
    match rejection(packet, limits) {
        Some(outcome) => outcome,
        None => decided(parsed(packet, true)->0, found, origin, now),
    }
}

/// What is done about a datagram, given all that the cache holds.
pub open spec fn routed(
    packet: Seq<u8>,
    origin: ClientOrigin,
    now: u64,
    limits: SizeLimits,
    entries: Map<KeyModel, EntryModel>,
) -> OutcomeModel {
    let found = match parsed(packet, true) {
        Some(q) => entry_of(entries, q.key()),
        None => None,
    };
    routed_with(packet, origin, now, limits, found)
}

/// The truncation threshold: a good entry goes out whole, patched, to a
/// client whose payload limit is its length or more, and a client whose
/// limit is one byte less, or less still, gets the truncated reply in its
/// place: marked as truncated, without an answer, header and question and
/// no byte more, which is never longer than the entry.
pub proof fn lemma_truncation_threshold(entry: Seq<u8>, q: QuestionModel)
    requires
        q.wf(),
        answers(entry, q.key()),
    ensures
        q.payload_size >= entry.len() ==> reply_for(entry, q) == patched(entry, q.tid, q.qname),
        q.payload_size == entry.len() - 1 ==> reply_for(entry, q) == truncated_reply(q),
        q.payload_size < entry.len() ==> {
            let reply = reply_for(entry, q);
            &&& reply == truncated_reply(q)
            &&& has_flag(reply[FLAGS_AT as int], FLAG_TC)
            &&& be16(reply, ANCOUNT_AT as int) == 0
            &&& reply.len() == HEADER_LEN + q.qname.len() + QUESTION_FIXED_LEN
            &&& reply.len() <= entry.len()
        },
{
    lemma_truncated_reply_shape(q);
}

/// The tally of one received datagram.
fn counted(rejected_size: u64, rejected_parse: u64, hits: u64, expired: u64) -> (tally: Tally)
    ensures
        tally == (Tally { received: 1, rejected_size, rejected_parse, hits, expired }),
{
    Tally { received: 1, rejected_size, rejected_parse, hits, expired }
}

/// Makes the reply to a question from a cached answer that is still good.
pub fn reply_to_hit(entry_packet: &[u8], question: &NormalizedQuestion) -> (out: Vec<u8>)
    requires
        answers(entry_packet@, question@.key()),
    ensures
        out@ == reply_for(entry_packet@, question@),
        entry_packet@.len() > question@.payload_size ==> out@ == truncated_reply(question@),
        entry_packet@.len() <= question@.payload_size ==> out@ == patched(
            entry_packet@,
            question@.tid,
            question@.qname,
        ),
{
    if entry_packet.len() > question.payload_size() as usize {
        build_truncated_reply(question)
    } else {
        patch_for_client(entry_packet, question)
    }
}

/// Decides what is done about a question, given what the cache holds for
/// its key.
pub fn decide(
    question: NormalizedQuestion,
    found: Option<&CacheEntry>,
    origin: ClientOrigin,
    now: u64,
) -> (out: Outcome)
    requires
        found matches Some(entry) ==> answers(entry.packet@, question@.key()),
    ensures
        out@ == decided(question@, found_model(found), origin, now),
{
    match found {
        Some(entry) => {
            if entry.is_expired(now) {
                Outcome {
                    action: Action::Forward(
                        ClientQuery { protocol: Protocol::Udp, origin, question, received_at: now },
                    ),
                    tally: counted(0, 0, 0, 1),
                }
            } else {
                let reply = reply_to_hit(entry.packet.as_slice(), &question);
                Outcome { action: Action::Reply(reply), tally: counted(0, 0, 1, 0) }
            }
        },
        None => Outcome {
            action: Action::Forward(
                ClientQuery { protocol: Protocol::Udp, origin, question, received_at: now },
            ),
            tally: counted(0, 0, 0, 0),
        },
    }
}

/// Turns away what is not a question: a datagram of a length that is not
/// accepted, without a look at its bytes, and one that cannot be parsed.
pub fn screen(packet: &[u8], limits: &SizeLimits) -> (out: Result<NormalizedQuestion, Outcome>)
    ensures
        match out {
            Ok(question) => rejection(packet@, *limits) is None && parsed(packet@, true) == Some(
                question@,
            ),
            Err(outcome) => rejection(packet@, *limits) == Some(outcome@),
        },
        !size_accepted(packet@.len(), *limits) ==> (out matches Err(outcome) && outcome@.action
            == ActionModel::Drop && outcome@.tally == tally_rejected_size()),
{
    if packet.len() < limits.min_len || packet.len() > limits.max_len {
        return Err(Outcome { action: Action::Drop, tally: counted(1, 0, 0, 0) });
    }
    match normalize(packet, true) {
        Ok(question) => Ok(question),
        Err(_) => Err(Outcome { action: Action::Drop, tally: counted(0, 1, 0, 0) }),
    }
}

/// Decides what is done about one received datagram, against a cache that
/// the caller has to itself.
///
/// A datagram whose length is not accepted is dropped and counted once as
/// rejected for its length, whatever it holds and whatever the cache holds.
pub fn route(
    packet: &[u8],
    origin: ClientOrigin,
    now: u64,
    limits: &SizeLimits,
    cache: &Cache,
) -> (out: Outcome)
    ensures
        out@ == routed(packet@, origin, now, *limits, cache@),
        !size_accepted(packet@.len(), *limits) ==> out@.action == ActionModel::Drop && out@.tally
            == tally_rejected_size(),
{
    let question = match screen(packet, limits) {
        Ok(question) => question,
        Err(outcome) => {
            return outcome;
        },
    };
    let key = question.key();
    let found = cache.lookup(&key);
    decide(question, found, origin, now)
}

/// Decides what is done about one received datagram, against a cache that
/// other threads read and fill meanwhile.
///
/// What the cache holds at the moment it is asked is not known beforehand;
/// whatever it is, the outcome is the one decided from it, and an entry that
/// is answered from is an answer to the datagram's question.
pub fn route_shared(
    packet: &[u8],
    origin: ClientOrigin,
    now: u64,
    limits: &SizeLimits,
    cache: &SharedCache,
) -> (out: Outcome)
    ensures
        exists|found: Option<EntryModel>|
            {
                &&& #[trigger] routed_with(packet@, origin, now, *limits, found) == out@
                &&& found matches Some(entry) ==> (parsed(packet@, true) matches Some(q)
                    && answers(entry.packet, q.key()))
            },
        !size_accepted(packet@.len(), *limits) ==> out@.action == ActionModel::Drop && out@.tally
            == tally_rejected_size(),
{
    let question = match screen(packet, limits) {
        Ok(question) => question,
        Err(outcome) => {
            assert(routed_with(packet@, origin, now, *limits, None) == outcome@);
            return outcome;
        },
    };
    let key = question.key();
    let shard = cache.read_shard(&key);
    let found = shard.borrow().lookup(&key);
    let ghost seen = found_model(found);
    let out = decide(question, found, origin, now);
    shard.release_read();
    assert(routed_with(packet@, origin, now, *limits, seen) == out@);
    out
}

} // verus!
