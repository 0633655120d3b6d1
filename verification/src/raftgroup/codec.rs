//! The wire form of a membership change request: the bytes that travel as
//! the context of a configuration change.
//!
//! A request is a message with one repeated field, the changes; a change
//! is a message with three numbers. Numbers are written as variable-length
//! integers; a number that is zero is left out.

use vstd::prelude::*;
use crate::metadata::{ChangeReplica, ChangeReplicas};

verus! {

/// A number as a variable-length integer: seven bits a byte, the low bits
/// first, the high bit set on every byte but the last.
pub open spec fn varint(value: nat) -> Seq<u8>
    decreases value,
{
    if value < 128 {
        seq![value as u8]
    } else {
        seq![(value % 128 + 128) as u8] + varint(value / 128)
    }
}

/// The variable-length integer that starts at `at`, read as the digits
/// from the `count`-th on: its value and where it ends. There is none if
/// the bytes end before the integer does, if it has more than ten bytes,
/// or if its tenth byte does not fit into 64 bits.
pub open spec fn parse_varint_from(bytes: Seq<u8>, at: int, count: nat) -> Option<(nat, int)>
    decreases 10 - count,
{
    if count >= 10 || at < 0 || at >= bytes.len() {
        None
    } else {
        let b = bytes[at];
        if b < 128 {
            if count == 9 && b >= 2 {
                None
            } else {
                Some((b as nat, at + 1))
            }
        } else {
            match parse_varint_from(bytes, at + 1, count + 1) {
                Some((high, end)) => Some(((b - 128) as nat + 128 * high, end)),
                None => None,
            }
        }
    }
}

/// The variable-length integer that starts at `at`: its value and where it
/// ends.
pub open spec fn parse_varint(bytes: Seq<u8>, at: int) -> Option<(nat, int)> {
    parse_varint_from(bytes, at, 0)
}

/// One more than the largest value of the digits of a 64-bit number from
/// the `count`-th digit on.
pub open spec fn digits_limit(count: nat) -> nat
    decreases 9 - count,
{
    if count >= 9 {
        2
    } else {
        128 * digits_limit(count + 1)
    }
}

/// What is parsed fits, and ends after where it starts and within the
/// bytes.
pub proof fn lemma_parse_varint_bounds(bytes: Seq<u8>, at: int, count: nat)
    requires
        parse_varint_from(bytes, at, count) is Some,
    ensures
        parse_varint_from(bytes, at, count).unwrap().0 < digits_limit(count),
        at < parse_varint_from(bytes, at, count).unwrap().1 <= bytes.len(),
        parse_varint_from(bytes, at, count).unwrap().1 <= at + 10 - count,
    decreases 10 - count,
{
    let b = bytes[at];
    if b >= 128 {
        lemma_parse_varint_bounds(bytes, at + 1, count + 1);
    } else {
        lemma_digits_limit(count);
    }
}

/// The limit of the digits from the `count`-th on is at least 2, and 128
/// times that of the digits from the next on.
pub proof fn lemma_digits_limit(count: nat)
    ensures
        digits_limit(count) >= 2,
        count < 9 ==> digits_limit(count) >= 256,
        digits_limit(0) == 0x1_0000_0000_0000_0000,
    decreases 9 - count,
{
    if count < 9 {
        lemma_digits_limit(count + 1);
    }
    assert(digits_limit(0) == 0x1_0000_0000_0000_0000) by {
        reveal_with_fuel(digits_limit, 11);
    }
}

/// A number that is written and read back is the number that was written:
/// where the bytes from `at` on start with a number below the limit of its
/// digits, that number is parsed, and the parse ends where the number ends.
pub proof fn lemma_varint_round_trip(bytes: Seq<u8>, at: int, count: nat, value: nat)
    requires
        count <= 9,
        value < digits_limit(count),
        0 <= at,
        at + varint(value).len() <= bytes.len(),
        bytes.subrange(at, at + varint(value).len()) == varint(value),
    ensures
        parse_varint_from(bytes, at, count) == Some((value, at + varint(value).len())),
    decreases value,
{
    let text = varint(value);
    assert(bytes.subrange(at, at + text.len())[0] == text[0]);
    if value >= 128 {
        let rest = varint(value / 128);
        assert(text == seq![(value % 128 + 128) as u8] + rest);
        if count == 9 {
            assert(digits_limit(9) == 2);
        }
        assert(digits_limit(count) == 128 * digits_limit(count + 1));
        assert(value / 128 < digits_limit(count + 1));
        assert(bytes.subrange(at + 1, at + 1 + rest.len()) == rest) by {
            assert forall|i: int| 0 <= i < rest.len() implies bytes.subrange(at + 1, at + 1 + rest.len())[i]
                == rest[i] by {
                assert(bytes.subrange(at, at + text.len())[i + 1] == text[i + 1]);
            }
        }
        lemma_varint_round_trip(bytes, at + 1, count + 1, value / 128);
    } else {
        if count == 9 {
            assert(digits_limit(9) == 2);
        }
    }
}

/// A number has at least one byte and at most ten.
pub proof fn lemma_varint_len(value: nat, count: nat)
    requires
        count <= 9,
        value < digits_limit(count),
    ensures
        1 <= varint(value).len() <= 10 - count,
    decreases value,
{
    if value >= 128 {
        if count == 9 {
            assert(digits_limit(9) == 2);
        }
        assert(digits_limit(count) == 128 * digits_limit(count + 1));
        lemma_varint_len(value / 128, count + 1);
    }
}

/// Writes a number as a variable-length integer at the end of `buf`, with
/// `prost::encoding::encode_varint`, which puts out seven bits a byte, low
/// bits first, and sets the high bit on every byte but the last.
#[verifier::external_body]
fn encode_varint(value: u64, buf: &mut Vec<u8>)
    ensures
        final(buf)@ == old(buf)@ + varint(value as nat),
{
    prost::encoding::encode_varint(value, buf)
}

/// Reads the variable-length integer that starts at `at`, with
/// `prost::encoding::decode_varint`: its value, and how many bytes follow
/// it. That function takes up to ten bytes, the last of which has the high
/// bit clear, and refuses a tenth byte of 2 or more; it fails where the
/// bytes end first.
#[verifier::external_body]
fn decode_varint(bytes: &Vec<u8>, at: usize) -> (out: Option<(u64, usize)>)
    requires
        at <= bytes@.len(),
    ensures
        match parse_varint(bytes@, at as int) {
            Some((value, end)) => out == Some((value as u64, (bytes@.len() - end) as usize)),
            None => out is None,
        },
{
    let mut rest: &[u8] = &bytes[at..];
    match prost::encoding::decode_varint(&mut rest) {
        Ok(value) => Some((value, rest.len())),
        Err(_) => None,
    }
}


/// The number that stands for a kind of change on the wire: the kind
/// itself, or, for a negative value, the value counted back from 2^64.
pub open spec fn enum_value(change_type: i32) -> nat {
    if change_type >= 0 {
        change_type as nat
    } else {
        (0x1_0000_0000_0000_0000 + change_type) as nat
    }
}

/// The kind of change that a number on the wire stands for: its low 32
/// bits, read as a signed number.
pub open spec fn enum_of(value: nat) -> i32 {
    let low = value % 0x1_0000_0000;
    if low < 0x8000_0000 {
        low as i32
    } else {
        (low - 0x1_0000_0000) as i32
    }
}

/// One field on the wire: its key and its number, or nothing if the
/// number is zero.
pub open spec fn field(key: u8, value: nat) -> Seq<u8> {
    if value == 0 {
        Seq::empty()
    } else {
        seq![key] + varint(value)
    }
}

/// One change on the wire: its kind, its replica and its node, in that
/// order.
pub open spec fn change_bytes(change: ChangeReplica) -> Seq<u8> {
    field(8, enum_value(change.change_type)) + field(16, change.replica_id as nat) + field(
        24,
        change.node_id as nat,
    )
}

/// One change as an entry of the request: the key of the entry, the length
/// of the change, and the change.
pub open spec fn entry_bytes(change: ChangeReplica) -> Seq<u8> {
    seq![10u8] + varint(change_bytes(change).len()) + change_bytes(change)
}

/// A request on the wire: its changes as entries, in order.
pub open spec fn changes_bytes(changes: Seq<ChangeReplica>) -> Seq<u8>
    decreases changes.len(),
{
    if changes.len() == 0 {
        Seq::empty()
    } else {
        entry_bytes(changes[0]) + changes_bytes(changes.subrange(1, changes.len() as int))
    }
}

/// A change whose numbers are all zero.
pub open spec fn empty_change() -> ChangeReplica {
    ChangeReplica { change_type: 0, replica_id: 0, node_id: 0 }
}

/// A change after one of its fields was read.
pub open spec fn with_field(change: ChangeReplica, tag: nat, value: nat) -> ChangeReplica {
    if tag == 1 {
        ChangeReplica { change_type: enum_of(value), ..change }
    } else if tag == 2 {
        ChangeReplica { replica_id: value as u64, ..change }
    } else {
        ChangeReplica { node_id: value as u64, ..change }
    }
}

/// Where the value of a field that is not known ends, if it starts at
/// `at`: after its number, its 8 or 4 bytes, or its length and that many
/// bytes, as its wire type says. Groups are not taken.
pub open spec fn skip_field(bytes: Seq<u8>, at: int, wire: nat) -> Option<int> {
    if wire == 0 {
        match parse_varint(bytes, at) {
            Some((_, end)) => Some(end),
            None => None,
        }
    } else if wire == 1 {
        Some(at + 8)
    } else if wire == 2 {
        match parse_varint(bytes, at) {
            Some((len, end)) => Some(end + len),
            None => None,
        }
    } else if wire == 5 {
        Some(at + 4)
    } else {
        None
    }
}

/// The change that the bytes from `at` up to `end` hold, read on top of
/// `change`. Fields come in any order; of a field that comes twice the
/// last counts; a field that is not known is skipped. There is no change
/// where a key or a number cannot be read, where a known field has the
/// wrong wire type, or where a field runs over `end`.
pub open spec fn parse_change(bytes: Seq<u8>, at: int, end: int, change: ChangeReplica) -> Option<ChangeReplica>
    decreases end - at,
{
    if at >= end {
        if at == end {
            Some(change)
        } else {
            None
        }
    } else {
        match parse_varint(bytes, at) {
            None => None,
            Some((key, p)) => {
                if key > u32::MAX || key / 8 == 0 {
                    None
                } else if key / 8 <= 3 {
                    if key % 8 != 0 {
                        None
                    } else {
                        match parse_varint(bytes, p) {
                            None => None,
                            Some((value, q)) => {
                                if q <= at || q > end {
                                    None
                                } else {
                                    parse_change(bytes, q, end, with_field(change, key / 8, value))
                                }
                            },
                        }
                    }
                } else {
                    match skip_field(bytes, p, key % 8) {
                        None => None,
                        Some(q) => {
                            if q <= at || q > end {
                                None
                            } else {
                                parse_change(bytes, q, end, change)
                            }
                        },
                    }
                }
            },
        }
    }
}

/// The changes that the bytes from `at` on hold, read after `changes`.
/// Every entry of the request adds a change; a field that is not known is
/// skipped. There are no changes where a key, a length or a change cannot
/// be read, where the entries have the wrong wire type, or where a field
/// runs over the end.
pub open spec fn parse_changes(bytes: Seq<u8>, at: int, changes: Seq<ChangeReplica>) -> Option<Seq<ChangeReplica>>
    decreases bytes.len() - at,
{
    if at >= bytes.len() {
        if at == bytes.len() {
            Some(changes)
        } else {
            None
        }
    } else {
        match parse_varint(bytes, at) {
            None => None,
            Some((key, p)) => {
                if key > u32::MAX || key / 8 == 0 {
                    None
                } else if key / 8 == 1 {
                    if key % 8 != 2 {
                        None
                    } else {
                        match parse_varint(bytes, p) {
                            None => None,
                            Some((len, q)) => {
                                if q + len <= at || q + len > bytes.len() {
                                    None
                                } else {
                                    match parse_change(bytes, q, q + len, empty_change()) {
                                        None => None,
                                        Some(change) => parse_changes(bytes, q + len, changes.push(change)),
                                    }
                                }
                            },
                        }
                    }
                } else {
                    match skip_field(bytes, p, key % 8) {
                        None => None,
                        Some(q) => {
                            if q <= at || q > bytes.len() {
                                None
                            } else {
                                parse_changes(bytes, q, changes)
                            }
                        },
                    }
                }
            },
        }
    }
}

/// The request that the bytes hold, if they hold one.
pub open spec fn parse_change_replicas(bytes: Seq<u8>) -> Option<Seq<ChangeReplica>> {
    parse_changes(bytes, 0, Seq::empty())
}

/// Writes one field at the end of `buf`.
fn encode_field(key: u8, value: u64, buf: &mut Vec<u8>)
    requires
        key < 128,
    ensures
        final(buf)@ == old(buf)@ + field(key, value as nat),
{
    if value != 0 {
        encode_varint(key as u64, buf);
        encode_varint(value, buf);
        assert(varint(key as nat) == seq![key]);
        assert(buf@ == old(buf)@ + (seq![key] + varint(value as nat)));
    } else {
        assert(buf@ == old(buf)@ + Seq::<u8>::empty());
    }
}

/// One change on the wire.
fn encode_change(change: &ChangeReplica) -> (bytes: Vec<u8>)
    ensures
        bytes@ == change_bytes(*change),
{
    let kind: u64 = if change.change_type >= 0 {
        change.change_type as u64
    } else {
        u64::MAX - ((-(change.change_type + 1)) as u64)
    };
    let mut bytes: Vec<u8> = Vec::new();
    encode_field(8, kind, &mut bytes);
    encode_field(16, change.replica_id, &mut bytes);
    encode_field(24, change.node_id, &mut bytes);
    assert(bytes@ == Seq::<u8>::empty() + field(8, enum_value(change.change_type)) + field(
        16,
        change.replica_id as nat,
    ) + field(24, change.node_id as nat));
    bytes
}

/// Appending a change to a request appends its entry to the bytes.
pub proof fn lemma_changes_bytes_push(changes: Seq<ChangeReplica>, change: ChangeReplica)
    ensures
        changes_bytes(changes.push(change)) == changes_bytes(changes) + entry_bytes(change),
    decreases changes.len(),
{
    let all = changes.push(change);
    if changes.len() == 0 {
        assert(all.subrange(1, all.len() as int) == Seq::<ChangeReplica>::empty());
        assert(all[0] == change);
        assert(changes_bytes(Seq::<ChangeReplica>::empty()) == Seq::<u8>::empty());
        assert(changes_bytes(changes) == Seq::<u8>::empty());
        assert(changes_bytes(all) == entry_bytes(change) + Seq::<u8>::empty());
    } else {
        let rest = changes.subrange(1, changes.len() as int);
        assert(all.subrange(1, all.len() as int) == rest.push(change));
        lemma_changes_bytes_push(rest, change);
        assert(changes_bytes(all) == entry_bytes(changes[0]) + (changes_bytes(rest) + entry_bytes(change)));
    }
}

/// Writes a membership change request in its wire form.
pub fn encode_change_replicas(change_replicas: &ChangeReplicas) -> (bytes: Vec<u8>)
    ensures
        bytes@ == changes_bytes(change_replicas@),
{
    let mut bytes: Vec<u8> = Vec::new();
    let mut i: usize = 0;
    assert(change_replicas@.take(0) == Seq::<ChangeReplica>::empty());
    while i < change_replicas.changes.len()
        invariant
            i <= change_replicas.changes.len(),
            bytes@ == changes_bytes(change_replicas@.take(i as int)),
        decreases change_replicas.changes.len() - i,
    {
        let mut inner = encode_change(&change_replicas.changes[i]);
        let ghost before = bytes@;
        let ghost change = change_replicas@[i as int];
        encode_varint(10, &mut bytes);
        encode_varint(inner.len() as u64, &mut bytes);
        bytes.append(&mut inner);
        proof {
            assert(varint(10) == seq![10u8]);
            assert(bytes@ == before + (seq![10u8] + varint(change_bytes(change).len()) + change_bytes(change)));
            assert(change_replicas@.take(i + 1) == change_replicas@.take(i as int).push(change));
            lemma_changes_bytes_push(change_replicas@.take(i as int), change);
        }
        i += 1;
    }
    assert(change_replicas@.take(change_replicas@.len() as int) == change_replicas@);
    bytes
}


/// Reads the variable-length integer that starts at `at`: its value and
/// where it ends.
fn read_varint(bytes: &Vec<u8>, at: usize) -> (out: Option<(u64, usize)>)
    requires
        at <= bytes@.len(),
    ensures
        match parse_varint(bytes@, at as int) {
            Some((value, end)) => out matches Some((v, e)) && v as nat == value && e as int == end && at < e
                <= bytes@.len(),
            None => out is None,
        },
{
    proof {
        if parse_varint(bytes@, at as int) is Some {
            lemma_parse_varint_bounds(bytes@, at as int, 0);
            lemma_digits_limit(0);
        }
    }
    match decode_varint(bytes, at) {
        Some((value, rest)) => Some((value, bytes.len() - rest)),
        None => None,
    }
}

/// Where the value of a field that is not known ends, if that is within
/// the bytes.
fn skip(bytes: &Vec<u8>, at: usize, wire: u64) -> (out: Option<usize>)
    requires
        at <= bytes@.len(),
    ensures
        match skip_field(bytes@, at as int, wire as nat) {
            Some(end) => if end <= bytes@.len() {
                out matches Some(e) && e as int == end && at <= e
            } else {
                out is None
            },
            None => out is None,
        },
{
    let len = bytes.len();
    if wire == 0 {
        match read_varint(bytes, at) {
            Some((_, end)) => Some(end),
            None => None,
        }
    } else if wire == 1 {
        if len - at >= 8 {
            Some(at + 8)
        } else {
            None
        }
    } else if wire == 2 {
        match read_varint(bytes, at) {
            Some((size, end)) => {
                if size <= (len - end) as u64 {
                    Some(end + size as usize)
                } else {
                    None
                }
            },
            None => None,
        }
    } else if wire == 5 {
        if len - at >= 4 {
            Some(at + 4)
        } else {
            None
        }
    } else {
        None
    }
}

/// Reads the change that the bytes from `at` up to `end` hold.
fn decode_change(bytes: &Vec<u8>, at: usize, end: usize) -> (out: Option<ChangeReplica>)
    requires
        at <= end <= bytes@.len(),
    ensures
        out == parse_change(bytes@, at as int, end as int, empty_change()),
{
    let mut change = ChangeReplica { change_type: 0, replica_id: 0, node_id: 0 };
    let mut pos: usize = at;
    while pos < end
        invariant
            at <= pos <= end <= bytes@.len(),
            parse_change(bytes@, at as int, end as int, empty_change()) == parse_change(
                bytes@,
                pos as int,
                end as int,
                change,
            ),
        decreases end - pos,
    {
        let read_key = read_varint(bytes, pos);
        if read_key.is_none() {
            return None;
        }
        let (key, p) = read_key.unwrap();
        if key > 0xffff_ffff || key / 8 == 0 {
            return None;
        }
        let tag = key / 8;
        let wire = key % 8;
        if tag <= 3 {
            if wire != 0 {
                return None;
            }
            let read_value = read_varint(bytes, p);
            if read_value.is_none() {
                return None;
            }
            let (value, q) = read_value.unwrap();
            if q > end {
                return None;
            }
            if tag == 1 {
                let low = value % 0x1_0000_0000;
                change.change_type = if low < 0x8000_0000 {
                    low as i32
                } else {
                    (low as i64 - 0x1_0000_0000) as i32
                };
            } else if tag == 2 {
                change.replica_id = value;
            } else {
                change.node_id = value;
            }
            pos = q;
        } else {
            let skipped = skip(bytes, p, wire);
            if skipped.is_none() {
                return None;
            }
            let q = skipped.unwrap();
            if q > end {
                return None;
            }
            pos = q;
        }
    }
    Some(change)
}

/// Reads a membership change request from its wire form, if the bytes
/// hold one.
pub fn decode_change_replicas(bytes: &Vec<u8>) -> (out: Option<ChangeReplicas>)
    ensures
        match parse_change_replicas(bytes@) {
            Some(changes) => out matches Some(request) && request@ == changes,
            None => out is None,
        },
{
    let len = bytes.len();
    let mut changes: Vec<ChangeReplica> = Vec::new();
    let mut pos: usize = 0;
    while pos < len
        invariant
            pos <= len == bytes@.len(),
            parse_change_replicas(bytes@) == parse_changes(bytes@, pos as int, changes@),
        decreases len - pos,
    {
        let read_key = read_varint(bytes, pos);
        if read_key.is_none() {
            return None;
        }
        let (key, p) = read_key.unwrap();
        if key > 0xffff_ffff || key / 8 == 0 {
            return None;
        }
        let tag = key / 8;
        let wire = key % 8;
        if tag == 1 {
            if wire != 2 {
                return None;
            }
            let read_size = read_varint(bytes, p);
            if read_size.is_none() {
                return None;
            }
            let (size, q) = read_size.unwrap();
            if size > (len - q) as u64 {
                return None;
            }
            let end = q + size as usize;
            match decode_change(bytes, q, end) {
                Some(change) => {
                    changes.push(change);
                },
                None => {
                    return None;
                },
            }
            pos = end;
        } else {
            let skipped = skip(bytes, p, wire);
            if skipped.is_none() {
                return None;
            }
            let q = skipped.unwrap();
            pos = q;
        }
    }
    Some(ChangeReplicas { changes })
}

/// A kind of change that is written and read back is the kind that was
/// written.
pub proof fn lemma_enum_round_trip(change_type: i32)
    ensures
        enum_of(enum_value(change_type)) == change_type,
        enum_value(change_type) < 0x1_0000_0000_0000_0000,
        enum_value(change_type) == 0 <==> change_type == 0,
{
    if change_type < 0 {
        let t = change_type as int;
        assert((0x1_0000_0000_0000_0000 + t) % 0x1_0000_0000 == 0x1_0000_0000 + t) by (nonlinear_arith)
            requires
                -0x8000_0000 <= t < 0,
        ;
    }
}

/// Reading a field that was written reads its number into the change; a
/// field that was left out leaves the change as it is.
proof fn lemma_field_round_trip(bytes: Seq<u8>, at: int, end: int, change: ChangeReplica, key: u8, value: nat)
    requires
        key == 8 || key == 16 || key == 24,
        value < 0x1_0000_0000_0000_0000,
        0 <= at,
        at + field(key, value).len() <= end <= bytes.len(),
        bytes.subrange(at, at + field(key, value).len()) == field(key, value),
    ensures
        parse_change(bytes, at, end, change) == parse_change(
            bytes,
            at + field(key, value).len(),
            end,
            if value == 0 {
                change
            } else {
                with_field(change, (key / 8) as nat, value)
            },
        ),
{
    if value != 0 {
        let text = field(key, value);
        let number = varint(value);
        lemma_digits_limit(0);
        lemma_varint_len(value, 0);
        assert(text == seq![key] + number);
        assert(bytes.subrange(at, at + text.len())[0] == key);
        assert(varint(key as nat) == seq![key]);
        assert(bytes.subrange(at, at + 1) == varint(key as nat));
        lemma_varint_round_trip(bytes, at, 0, key as nat);
        assert(parse_varint(bytes, at) == Some((key as nat, at + 1)));
        assert(bytes.subrange(at + 1, at + 1 + number.len()) == number) by {
            assert forall|i: int| 0 <= i < number.len() implies bytes.subrange(at + 1, at + 1 + number.len())[i]
                == number[i] by {
                assert(bytes.subrange(at, at + text.len())[i + 1] == text[i + 1]);
            }
        }
        lemma_varint_round_trip(bytes, at + 1, 0, value);
        assert(parse_varint(bytes, at + 1) == Some((value, at + 1 + number.len())));
    }
}

/// A change that is written and read back is the change that was written.
pub proof fn lemma_change_round_trip(bytes: Seq<u8>, at: int, change: ChangeReplica)
    requires
        0 <= at,
        at + change_bytes(change).len() <= bytes.len(),
        bytes.subrange(at, at + change_bytes(change).len()) == change_bytes(change),
    ensures
        parse_change(bytes, at, at + change_bytes(change).len(), empty_change()) == Some(change),
{
    let kind = enum_value(change.change_type);
    let f1 = field(8, kind);
    let f2 = field(16, change.replica_id as nat);
    let f3 = field(24, change.node_id as nat);
    let all = change_bytes(change);
    let end = at + all.len();
    lemma_enum_round_trip(change.change_type);
    assert(all == f1 + f2 + f3);
    assert(bytes.subrange(at, at + f1.len()) == f1) by {
        assert forall|i: int| 0 <= i < f1.len() implies bytes.subrange(at, at + f1.len())[i] == f1[i] by {
            assert(bytes.subrange(at, end)[i] == all[i]);
        }
    }
    assert(bytes.subrange(at + f1.len(), at + f1.len() + f2.len()) == f2) by {
        assert forall|i: int| 0 <= i < f2.len() implies bytes.subrange(at + f1.len(), at + f1.len() + f2.len())[i]
            == f2[i] by {
            assert(bytes.subrange(at, end)[f1.len() + i] == all[f1.len() + i]);
        }
    }
    assert(bytes.subrange(at + f1.len() + f2.len(), end) == f3) by {
        assert forall|i: int| 0 <= i < f3.len() implies bytes.subrange(at + f1.len() + f2.len(), end)[i]
            == f3[i] by {
            assert(bytes.subrange(at, end)[f1.len() + f2.len() + i] == all[f1.len() + f2.len() + i]);
        }
    }
    let c0 = empty_change();
    let c1 = if kind == 0 {
        c0
    } else {
        with_field(c0, 1, kind)
    };
    let c2 = if change.replica_id == 0 {
        c1
    } else {
        with_field(c1, 2, change.replica_id as nat)
    };
    let c3 = if change.node_id == 0 {
        c2
    } else {
        with_field(c2, 3, change.node_id as nat)
    };
    lemma_field_round_trip(bytes, at, end, c0, 8, kind);
    lemma_field_round_trip(bytes, at + f1.len(), end, c1, 16, change.replica_id as nat);
    lemma_field_round_trip(bytes, at + f1.len() + f2.len(), end, c2, 24, change.node_id as nat);
    assert(c3 == change);
}

/// A change has at most 33 bytes.
pub proof fn lemma_change_len(change: ChangeReplica)
    ensures
        change_bytes(change).len() <= 33,
{
    lemma_enum_round_trip(change.change_type);
    lemma_digits_limit(0);
    lemma_varint_len(enum_value(change.change_type), 0);
    lemma_varint_len(change.replica_id as nat, 0);
    lemma_varint_len(change.node_id as nat, 0);
}

/// Reading the entries that were written for `changes` adds exactly those
/// changes.
pub proof fn lemma_changes_round_trip(
    bytes: Seq<u8>,
    at: int,
    read: Seq<ChangeReplica>,
    changes: Seq<ChangeReplica>,
)
    requires
        0 <= at <= bytes.len(),
        bytes.subrange(at, bytes.len() as int) == changes_bytes(changes),
    ensures
        parse_changes(bytes, at, read) == Some(read + changes),
    decreases changes.len(),
{
    if changes.len() == 0 {
        assert(changes_bytes(changes).len() == 0);
        assert(bytes.subrange(at, bytes.len() as int).len() == 0);
        assert(read + changes == read);
    } else {
        let change = changes[0];
        let rest = changes.subrange(1, changes.len() as int);
        let inner = change_bytes(change);
        let size = varint(inner.len());
        let entry = entry_bytes(change);
        let tail = bytes.subrange(at, bytes.len() as int);
        lemma_change_len(change);
        lemma_digits_limit(0);
        lemma_varint_len(inner.len(), 0);
        assert(tail == entry + changes_bytes(rest));
        assert(entry == seq![10u8] + size + inner);
        assert(varint(10) == seq![10u8]);
        assert(bytes.subrange(at, at + 1) == varint(10)) by {
            assert(tail[0] == 10u8);
        }
        lemma_varint_round_trip(bytes, at, 0, 10);
        assert(parse_varint(bytes, at) == Some((10nat, at + 1)));
        assert(bytes.subrange(at + 1, at + 1 + size.len()) == size) by {
            assert forall|i: int| 0 <= i < size.len() implies bytes.subrange(at + 1, at + 1 + size.len())[i]
                == size[i] by {
                assert(tail[i + 1] == entry[i + 1]);
            }
        }
        lemma_varint_round_trip(bytes, at + 1, 0, inner.len());
        let q = at + 1 + size.len();
        assert(parse_varint(bytes, at + 1) == Some((inner.len(), q)));
        assert(bytes.subrange(q, q + inner.len()) == inner) by {
            assert forall|i: int| 0 <= i < inner.len() implies bytes.subrange(q, q + inner.len())[i] == inner[i] by {
                assert(tail[1 + size.len() + i] == entry[1 + size.len() + i]);
            }
        }
        lemma_change_round_trip(bytes, q, change);
        assert(bytes.subrange(q + inner.len(), bytes.len() as int) == changes_bytes(rest)) by {
            assert forall|i: int| 0 <= i < changes_bytes(rest).len() implies bytes.subrange(
                q + inner.len(),
                bytes.len() as int,
            )[i] == changes_bytes(rest)[i] by {
                assert(tail[entry.len() + i] == (entry + changes_bytes(rest))[entry.len() + i]);
            }
        }
        lemma_changes_round_trip(bytes, q + inner.len(), read.push(change), rest);
        assert(read.push(change) + rest == read + changes);
    }
}

/// The codec is lossless: a request that is written and read back is the
/// request that was written.
pub proof fn lemma_codec_round_trip(changes: Seq<ChangeReplica>)
    ensures
        parse_change_replicas(changes_bytes(changes)) == Some(changes),
{
    let bytes = changes_bytes(changes);
    assert(bytes.subrange(0, bytes.len() as int) == bytes);
    lemma_changes_round_trip(bytes, 0, Seq::empty(), changes);
    assert(Seq::<ChangeReplica>::empty() + changes == changes);
}

} // verus!
