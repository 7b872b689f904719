//! The record sections behind the question, walked for the EDNS0 OPT
//! pseudo-record that carries a client's payload limit and its DNSSEC-OK bit.

use vstd::prelude::*;
use crate::name::{agree_from, lemma_name_end_agrees, lemma_name_end_bounds, name_end, skip_name};
use crate::wire::{
    be16, read_be16, ANCOUNT_AT, ARCOUNT_AT, FLAG_DO, HEADER_LEN, LEGACY_PAYLOAD_SIZE,
    NSCOUNT_AT, OPT_FLAGS_AT, RECORD_CLASS_AT, RECORD_DATA_LEN_AT, RECORD_FIXED_LEN, TYPE_OPT,
};

verus! {

/// What a client states about itself through EDNS0.
#[derive(Clone, Copy, Debug)]
pub struct Edns {
    /// Largest UDP response that the client accepts.
    pub payload_size: u16,
    /// Whether the client asks for DNSSEC records.
    pub dnssec_ok: bool,
}

/// What holds of a client that sent no OPT record.
pub open spec fn legacy_edns() -> Edns {
    Edns { payload_size: LEGACY_PAYLOAD_SIZE, dnssec_ok: false }
}

/// The offset just behind the resource record that starts at `pos`: its
/// owner name, ten bytes of type, class, TTL and data length, then the data.
/// `None` where any of them leaves the message.
pub open spec fn record_end(msg: Seq<u8>, pos: int) -> Option<int> {
    match name_end(msg, pos) {
        None => None,
        Some(fixed) => {
            if fixed + RECORD_FIXED_LEN > msg.len() {
                None
            } else {
                let end = fixed + RECORD_FIXED_LEN + be16(msg, fixed + RECORD_DATA_LEN_AT);
                if end > msg.len() {
                    None
                } else {
                    Some(end)
                }
            }
        },
    }
}

/// What the record at `pos` says as an OPT record, if it is one. The class
/// field holds the payload size; the DNSSEC-OK bit is the top bit of the
/// third TTL byte.
pub open spec fn opt_at(msg: Seq<u8>, pos: int) -> Option<Edns> {
    match name_end(msg, pos) {
        None => None,
        Some(fixed) => {
            if be16(msg, fixed) == TYPE_OPT {
                Some(
                    Edns {
                        payload_size: be16(msg, fixed + RECORD_CLASS_AT),
                        dnssec_ok: msg[fixed + OPT_FLAGS_AT] >= FLAG_DO,
                    },
                )
            } else {
                None
            }
        },
    }
}

/// The offset behind `count` records in a row from `pos`; `None` where one
/// of them leaves the message.
pub open spec fn skip_records(msg: Seq<u8>, pos: int, count: nat) -> Option<int>
    decreases count,
{
    if count == 0 {
        Some(pos)
    } else {
        match record_end(msg, pos) {
            None => None,
            Some(end) => skip_records(msg, end, (count - 1) as nat),
        }
    }
}

/// An OPT record joined with what the records behind it gave: malformed
/// stays malformed, and a second OPT record makes the section malformed.
pub open spec fn merge_opt(first: Option<Edns>, later: Option<Option<Edns>>) -> Option<
    Option<Edns>,
> {
    match later {
        None => None,
        Some(None) => Some(first),
        Some(Some(e)) => if first is Some {
            None
        } else {
            Some(Some(e))
        },
    }
}

/// The one OPT record among `count` records in a row from `pos`. The outer
/// `None` says that the section is malformed: a record leaves the message, or
/// there are two OPT records. `Some(None)` says that there is no OPT record.
pub open spec fn find_opt(msg: Seq<u8>, pos: int, count: nat) -> Option<Option<Edns>>
    decreases count,
{
    if count == 0 {
        Some(None)
    } else {
        match record_end(msg, pos) {
            None => None,
            Some(end) => merge_opt(opt_at(msg, pos), find_opt(msg, end, (count - 1) as nat)),
        }
    }
}

/// What a message whose record sections start at `pos` states through
/// EDNS0: the answer and authority records are passed over, and the
/// additional records searched for the OPT record. `None` where the sections
/// are malformed; the legacy values where there is no OPT record.
pub open spec fn edns_of(msg: Seq<u8>, pos: int) -> Option<Edns> {
    let leading = be16(msg, ANCOUNT_AT as int) + be16(msg, NSCOUNT_AT as int);
    match skip_records(msg, pos, leading as nat) {
        None => None,
        Some(additional) => match find_opt(msg, additional, be16(msg, ARCOUNT_AT as int) as nat) {
            None => None,
            Some(None) => Some(legacy_edns()),
            Some(Some(e)) => Some(e),
        },
    }
}

/// A record ends behind where it starts, inside the message.
pub proof fn lemma_record_end_bounds(msg: Seq<u8>, pos: int)
    ensures
        record_end(msg, pos) matches Some(end) ==> pos < end <= msg.len(),
{
    lemma_name_end_bounds(msg, pos);
}

/// What a record is depends on no byte before it.
pub proof fn lemma_record_agrees(a: Seq<u8>, b: Seq<u8>, from: int, pos: int)
    requires
        agree_from(a, b, from),
        from <= pos,
    ensures
        record_end(a, pos) == record_end(b, pos),
        record_end(a, pos) is Some ==> opt_at(a, pos) == opt_at(b, pos),
{
    lemma_name_end_agrees(a, b, from, pos);
    lemma_name_end_bounds(a, pos);
}

/// Where a row of records ends depends on no byte before it.
pub proof fn lemma_skip_records_agrees(a: Seq<u8>, b: Seq<u8>, from: int, pos: int, count: nat)
    requires
        agree_from(a, b, from),
        from <= pos,
    ensures
        skip_records(a, pos, count) == skip_records(b, pos, count),
        skip_records(a, pos, count) matches Some(end) ==> pos <= end,
    decreases count,
{
    if count > 0 {
        lemma_record_agrees(a, b, from, pos);
        lemma_record_end_bounds(a, pos);
        if let Some(end) = record_end(a, pos) {
            lemma_skip_records_agrees(a, b, from, end, (count - 1) as nat);
        }
    }
}

/// The OPT record of a row of records depends on no byte before the row.
pub proof fn lemma_find_opt_agrees(a: Seq<u8>, b: Seq<u8>, from: int, pos: int, count: nat)
    requires
        agree_from(a, b, from),
        from <= pos,
    ensures
        find_opt(a, pos, count) == find_opt(b, pos, count),
    decreases count,
{
    if count > 0 {
        lemma_record_agrees(a, b, from, pos);
        lemma_record_end_bounds(a, pos);
        if let Some(end) = record_end(a, pos) {
            lemma_find_opt_agrees(a, b, from, end, (count - 1) as nat);
        }
    }
}

/// What a message states through EDNS0 depends on its record counts and on
/// the bytes of its record sections only.
pub proof fn lemma_edns_agrees(a: Seq<u8>, b: Seq<u8>, pos: int)
    requires
        agree_from(a, b, pos),
        HEADER_LEN <= pos,
        a.len() >= HEADER_LEN,
        forall|i: int| ANCOUNT_AT <= i < HEADER_LEN ==> a[i] == b[i],
    ensures
        edns_of(a, pos) == edns_of(b, pos),
{
    let leading = (be16(a, ANCOUNT_AT as int) + be16(a, NSCOUNT_AT as int)) as nat;
    lemma_skip_records_agrees(a, b, pos, pos, leading);
    if let Some(additional) = skip_records(a, pos, leading) {
        lemma_find_opt_agrees(a, b, pos, additional, be16(a, ARCOUNT_AT as int) as nat);
    }
}

/// Reads the record at `pos`: where it ends, and what it says if it is an
/// OPT record.
pub fn read_record(msg: &[u8], pos: usize) -> (out: Option<(usize, Option<Edns>)>)
    ensures
        match out {
            Some((end, opt)) => {
                &&& record_end(msg@, pos as int) == Some(end as int)
                &&& opt == opt_at(msg@, pos as int)
                &&& pos < end <= msg@.len()
            },
            None => record_end(msg@, pos as int) is None,
        },
{
    let fixed: usize = match skip_name(msg, pos) {
        Some(fixed) => fixed,
        None => {
            return None;
        },
    };
    if msg.len() - fixed < RECORD_FIXED_LEN {
        return None;
    }
    let data_len: usize = read_be16(msg, fixed + RECORD_DATA_LEN_AT) as usize;
    if msg.len() - fixed - RECORD_FIXED_LEN < data_len {
        return None;
    }
    let end: usize = fixed + RECORD_FIXED_LEN + data_len;
    let opt: Option<Edns> = if read_be16(msg, fixed) == TYPE_OPT {
        Some(
            Edns {
                payload_size: read_be16(msg, fixed + RECORD_CLASS_AT),
                dnssec_ok: msg[fixed + OPT_FLAGS_AT] >= FLAG_DO,
            },
        )
    } else {
        None
    };
    Some((end, opt))
}

/// Passes over `count` records in a row from `start`.
pub fn pass_records(msg: &[u8], start: usize, count: u32) -> (out: Option<usize>)
    ensures
        match out {
            Some(end) => skip_records(msg@, start as int, count as nat) == Some(end as int),
            None => skip_records(msg@, start as int, count as nat) is None,
        },
{
    let mut pos: usize = start;
    let mut left: u32 = count;
    while left > 0
        invariant
            skip_records(msg@, start as int, count as nat) == skip_records(
                msg@,
                pos as int,
                left as nat,
            ),
        decreases left,
    {
        match read_record(msg, pos) {
            Some((end, _)) => {
                pos = end;
            },
            None => {
                return None;
            },
        }
        left = left - 1;
    }
    Some(pos)
}

/// Searches `count` records in a row from `start` for the one OPT record.
pub fn search_opt(msg: &[u8], start: usize, count: u16) -> (out: Option<Option<Edns>>)
    ensures
        out == find_opt(msg@, start as int, count as nat),
{
    let mut pos: usize = start;
    let mut left: u16 = count;
    let mut found: Option<Edns> = None;
    while left > 0
        invariant
            find_opt(msg@, start as int, count as nat) == merge_opt(
                found,
                find_opt(msg@, pos as int, left as nat),
            ),
        decreases left,
    {
        match read_record(msg, pos) {
            Some((end, opt)) => {
                if opt.is_some() {
                    if found.is_some() {
                        return None;
                    }
                    found = opt;
                }
                pos = end;
            },
            None => {
                return None;
            },
        }
        left = left - 1;
    }
    Some(found)
}

/// Reads what a message states through EDNS0, where its record sections
/// start at `pos`.
pub fn read_edns(msg: &[u8], pos: usize) -> (out: Option<Edns>)
    requires
        msg@.len() >= HEADER_LEN,
    ensures
        out == edns_of(msg@, pos as int),
{
    let answers: u32 = read_be16(msg, ANCOUNT_AT) as u32;
    let authorities: u32 = read_be16(msg, NSCOUNT_AT) as u32;
    let additional: usize = match pass_records(msg, pos, answers + authorities) {
        Some(additional) => additional,
        None => {
            return None;
        },
    };
    match search_opt(msg, additional, read_be16(msg, ARCOUNT_AT)) {
        None => None,
        Some(None) => Some(Edns { payload_size: LEGACY_PAYLOAD_SIZE, dnssec_ok: false }),
        Some(Some(e)) => Some(e),
    }
}

} // verus!
