//! Domain names in wire form: runs of length-prefixed labels, closed by the
//! zero-length root label or continued elsewhere by a compression pointer.

use vstd::prelude::*;

verus! {

/// Largest length byte that introduces a label.
pub const MAX_LABEL_LEN: u8 = 63;

/// Smallest byte that introduces a compression pointer.
pub const POINTER_TAG: u8 = 0xC0;

/// The offset that the two bytes of a compression pointer name.
pub open spec fn pointer_target(hi: u8, lo: u8) -> int {
    (hi - POINTER_TAG) * 256 + lo
}

/// `prefix` put in front of a name, if there is one.
pub open spec fn prepend(prefix: Seq<u8>, tail: Option<Seq<u8>>) -> Option<Seq<u8>> {
    match tail {
        Some(t) => Some(prefix + t),
        None => None,
    }
}

/// The name that starts at `pos`, with every compression pointer followed:
/// its labels in order, each with its length byte, closed by the root label.
///
/// `run` is the offset at which the run of labels that `pos` lies in began.
/// A pointer is only followed to an offset strictly before `run`, which then
/// begins the next run; so every jump goes backward, to bytes that no earlier
/// run started from, and the walk ends. `None` where a label or a pointer
/// leaves the message, a pointer does not go strictly backward, or a length
/// byte has one of the two reserved tags.
pub open spec fn name_at(msg: Seq<u8>, pos: int, run: int) -> Option<Seq<u8>>
    decreases run, msg.len() - pos,
{
    if pos < 0 || pos >= msg.len() || run < 0 {
        None
    } else {
        let b = msg[pos];
        if b == 0 {
            Some(seq![0u8])
        } else if b <= MAX_LABEL_LEN {
            let next = pos + 1 + b;
            if next > msg.len() {
                None
            } else {
                prepend(msg.subrange(pos, next), name_at(msg, next, run))
            }
        } else if b >= POINTER_TAG {
            if pos + 2 > msg.len() {
                None
            } else {
                let target = pointer_target(b, msg[pos + 1]);
                if target >= run {
                    None
                } else {
                    name_at(msg, target, target)
                }
            }
        } else {
            None
        }
    }
}

/// The offset just behind the name that starts at `pos`, as it lies in the
/// message: behind its root label, or behind the first compression pointer.
/// Pointers are not followed. `None` where the name leaves the message or a
/// length byte has a reserved tag.
pub open spec fn name_end(msg: Seq<u8>, pos: int) -> Option<int>
    decreases msg.len() - pos,
{
    if pos < 0 || pos >= msg.len() {
        None
    } else {
        let b = msg[pos];
        if b == 0 {
            Some(pos + 1)
        } else if b <= MAX_LABEL_LEN {
            let next = pos + 1 + b;
            if next > msg.len() {
                None
            } else {
                name_end(msg, next)
            }
        } else if b >= POINTER_TAG {
            if pos + 2 > msg.len() {
                None
            } else {
                Some(pos + 2)
            }
        } else {
            None
        }
    }
}

/// Whether `name` is a complete uncompressed name: labels of 1 to 63 bytes,
/// then the root label, and nothing after it.
pub open spec fn is_plain_name(name: Seq<u8>) -> bool
    decreases name.len(),
{
    if name.len() == 0 {
        false
    } else if name[0] == 0 {
        name.len() == 1
    } else {
        &&& name[0] <= MAX_LABEL_LEN
        &&& 1 + name[0] <= name.len()
        &&& is_plain_name(name.subrange(1 + name[0], name.len() as int))
    }
}

/// An ASCII capital letter folded to its small letter; any other byte unchanged.
pub open spec fn lower(b: u8) -> u8 {
    if 0x41 <= b && b <= 0x5A {
        (b + 32) as u8
    } else {
        b
    }
}

/// Whether `b` is an ASCII letter.
pub open spec fn is_letter(b: u8) -> bool {
    (0x41 <= b && b <= 0x5A) || (0x61 <= b && b <= 0x7A)
}

/// A name with every ASCII capital letter folded to its small letter.
pub open spec fn canonical(name: Seq<u8>) -> Seq<u8> {
    Seq::new(name.len(), |i: int| lower(name[i]))
}

/// Two bytes with the same folding are equal unless both are letters.
pub proof fn lemma_same_folding(a: u8, b: u8)
    requires
        lower(a) == lower(b),
    ensures
        a == b || (is_letter(a) && is_letter(b)),
        a <= MAX_LABEL_LEN ==> a == b,
{
}

/// Folding a folded name changes nothing.
pub proof fn lemma_canonical_idempotent(name: Seq<u8>)
    ensures
        canonical(canonical(name)) == canonical(name),
{
}

/// A name read out of a message is a complete uncompressed name.
pub proof fn lemma_name_at_is_plain(msg: Seq<u8>, pos: int, run: int)
    ensures
        name_at(msg, pos, run) matches Some(name) ==> is_plain_name(name),
    decreases run, msg.len() - pos,
{
    if pos < 0 || pos >= msg.len() || run < 0 {
    } else {
        let b = msg[pos];
        if b == 0 {
        } else if b <= MAX_LABEL_LEN {
            let next = pos + 1 + b;
            if next <= msg.len() {
                lemma_name_at_is_plain(msg, next, run);
                if let Some(rest) = name_at(msg, next, run) {
                    let label = msg.subrange(pos, next);
                    let name = label + rest;
                    assert(name.subrange(1 + b, name.len() as int) =~= rest);
                }
            }
        } else if b >= POINTER_TAG {
            if pos + 2 <= msg.len() {
                let target = pointer_target(b, msg[pos + 1]);
                if target < run {
                    lemma_name_at_is_plain(msg, target, target);
                }
            }
        }
    }
}

/// Folding keeps a name complete: length bytes are no letters.
pub proof fn lemma_canonical_is_plain(name: Seq<u8>)
    requires
        is_plain_name(name),
    ensures
        is_plain_name(canonical(name)),
    decreases name.len(),
{
    let folded = canonical(name);
    if name[0] != 0 {
        let rest = name.subrange(1 + name[0], name.len() as int);
        lemma_canonical_is_plain(rest);
        assert(folded.subrange(1 + folded[0], folded.len() as int) =~= canonical(rest));
    }
}

/// A complete uncompressed name that lies in a message is read as itself,
/// from wherever its run is taken to have begun, and ends where it ends.
pub proof fn lemma_plain_name_in_place(msg: Seq<u8>, pos: int, end: int, run: int)
    requires
        0 <= pos <= end <= msg.len(),
        is_plain_name(msg.subrange(pos, end)),
        0 <= run,
    ensures
        name_at(msg, pos, run) == Some(msg.subrange(pos, end)),
        name_end(msg, pos) == Some(end),
    decreases end - pos,
{
    let name = msg.subrange(pos, end);
    let b = msg[pos];
    if b != 0 {
        let next = pos + 1 + b;
        assert(name.subrange(1 + b, name.len() as int) =~= msg.subrange(next, end));
        lemma_plain_name_in_place(msg, next, end, run);
    }
}

/// A complete uncompressed name spelled in another letter case is a
/// complete uncompressed name with the same folding.
pub proof fn lemma_respelled_name(name: Seq<u8>, respelled: Seq<u8>)
    requires
        is_plain_name(name),
        respelled.len() == name.len(),
        forall|i: int| 0 <= i < name.len() ==> lower(name[i]) == lower(respelled[i]),
    ensures
        is_plain_name(respelled),
        canonical(respelled) == canonical(name),
    decreases name.len(),
{
    lemma_same_folding(name[0], respelled[0]);
    if name[0] != 0 {
        let from = 1 + name[0];
        lemma_respelled_name(
            name.subrange(from, name.len() as int),
            respelled.subrange(from, name.len() as int),
        );
    }
}

/// Whether two messages are equally long and hold the same bytes from
/// `from` on.
pub open spec fn agree_from(a: Seq<u8>, b: Seq<u8>, from: int) -> bool {
    &&& a.len() == b.len()
    &&& forall|i: int| from <= i < a.len() ==> a[i] == b[i]
}

/// Where a name ends depends on no byte before it.
pub proof fn lemma_name_end_agrees(a: Seq<u8>, b: Seq<u8>, from: int, pos: int)
    requires
        agree_from(a, b, from),
        from <= pos,
    ensures
        name_end(a, pos) == name_end(b, pos),
    decreases a.len() - pos,
{
    if 0 <= pos < a.len() {
        let len = a[pos];
        if 0 < len <= MAX_LABEL_LEN && pos + 1 + len <= a.len() {
            lemma_name_end_agrees(a, b, from, pos + 1 + len);
        }
    }
}

/// Where a name ends in the message lies behind its start and inside the message.
pub proof fn lemma_name_end_bounds(msg: Seq<u8>, pos: int)
    ensures
        name_end(msg, pos) matches Some(end) ==> pos < end <= msg.len(),
    decreases msg.len() - pos,
{
    if 0 <= pos < msg.len() {
        let b = msg[pos];
        if 0 < b <= MAX_LABEL_LEN && pos + 1 + b <= msg.len() {
            lemma_name_end_bounds(msg, pos + 1 + b);
        }
    }
}

/// Folds one byte.
pub fn to_lower(b: u8) -> (l: u8)
    ensures
        l == lower(b),
{
    if 0x41 <= b && b <= 0x5A {
        b + 32
    } else {
        b
    }
}

/// Folds every capital letter of `name`.
pub fn canonicalize(name: &[u8]) -> (out: Vec<u8>)
    ensures
        out@ == canonical(name@),
{
    let mut out: Vec<u8> = Vec::new();
    let mut i: usize = 0;
    while i < name.len()
        invariant
            i <= name@.len(),
            out@.len() == i,
            forall|j: int| 0 <= j < i ==> out@[j] == lower(name@[j]),
        decreases name@.len() - i,
    {
        out.push(to_lower(name[i]));
        i = i + 1;
    }
    out
}

/// Finds where the name that starts at `start` ends in the message, without
/// following compression pointers.
pub fn skip_name(msg: &[u8], start: usize) -> (end: Option<usize>)
    ensures
        match end {
            Some(e) => name_end(msg@, start as int) == Some(e as int) && start < e <= msg@.len(),
            None => name_end(msg@, start as int) is None,
        },
{
    let mut pos: usize = start;
    loop
        invariant
            start <= pos,
            name_end(msg@, start as int) == name_end(msg@, pos as int),
        decreases msg@.len() - pos,
    {
        if pos >= msg.len() {
            return None;
        }
        let b: u8 = msg[pos];
        let room: usize = msg.len() - pos;
        if b == 0 {
            return Some(pos + 1);
        } else if b <= MAX_LABEL_LEN {
            if b as usize >= room {
                return None;
            }
            pos = pos + 1 + b as usize;
        } else if b >= POINTER_TAG {
            if room < 2 {
                return None;
            }
            return Some(pos + 2);
        } else {
            return None;
        }
    }
}

/// Reads the name that starts at `start`, following compression pointers,
/// into a complete uncompressed name.
pub fn expand_name(msg: &[u8], start: usize) -> (out: Option<Vec<u8>>)
    ensures
        match out {
            Some(name) => name_at(msg@, start as int, start as int) == Some(name@),
            None => name_at(msg@, start as int, start as int) is None,
        },
{
    let mut name: Vec<u8> = Vec::new();
    let mut pos: usize = start;
    let mut run: usize = start;
    loop
        invariant
            name_at(msg@, start as int, start as int) == prepend(
                name@,
                name_at(msg@, pos as int, run as int),
            ),
        decreases run, msg@.len() - pos,
    {
        if pos >= msg.len() {
            return None;
        }
        let b: u8 = msg[pos];
        let room: usize = msg.len() - pos;
        if b == 0 {
            name.push(0);
            return Some(name);
        } else if b <= MAX_LABEL_LEN {
            if b as usize >= room {
                return None;
            }
            let next: usize = pos + 1 + b as usize;
            let ghost before = name@;
            let mut i: usize = pos;
            while i < next
                invariant
                    pos <= i <= next <= msg@.len(),
                    name@ == before + msg@.subrange(pos as int, i as int),
                decreases next - i,
            {
                name.push(msg[i]);
                i = i + 1;
            }
            pos = next;
        } else if b >= POINTER_TAG {
            if room < 2 {
                return None;
            }
            let target: usize = (b - POINTER_TAG) as usize * 256 + msg[pos + 1] as usize;
            if target >= run {
                return None;
            }
            pos = target;
            run = target;
        } else {
            return None;
        }
    }
}

} // verus!
