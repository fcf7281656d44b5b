//! The grammar of the module's replies.
//!
//! A reply is framed by carriage return and line feed. A success ends with
//! the line `OK` and the prompt `> `; a failure ends with the line `ERROR`
//! and the prompt. Each form is matched against the whole reply, and the
//! first form that matches decides. A reply that matches none is reported as
//! such and never read as a success.

use crate::decimal::{
    all_digits, decimal_value, digit_run, is_digit, lemma_digit_run_of_digits, NINE, ZERO,
};
use crate::protocol::{holdable, Response, Ssid};
use vstd::prelude::*;

verus! {

/// ASCII `,`, between the fields of a line.
pub const COMMA: u8 = 0x2C;

/// `\r\n`: the start of every reply.
pub const CRLF: [u8; 2] = [0x0D, 0x0A];

/// `\r\nOK\r\n> `: the end of every success.
pub const DONE: [u8; 8] = [0x0D, 0x0A, 0x4F, 0x4B, 0x0D, 0x0A, 0x3E, 0x20];

/// `ERROR\r\n> `: the end of every failure.
pub const FAILED: [u8; 9] = [0x45, 0x52, 0x52, 0x4F, 0x52, 0x0D, 0x0A, 0x3E, 0x20];

/// `\r\n[JOIN   ] `: the start of the report of a joined network.
pub const JOIN_HEAD: [u8; 12] = [
    0x0D,
    0x0A,
    0x5B,
    0x4A,
    0x4F,
    0x49,
    0x4E,
    0x20,
    0x20,
    0x20,
    0x5D,
    0x20,
];

/// `,0,0\r\nOK\r\n> `: the end of the report of a joined network.
pub const JOIN_TAIL: [u8; 12] = [
    0x2C,
    0x30,
    0x2C,
    0x30,
    0x0D,
    0x0A,
    0x4F,
    0x4B,
    0x0D,
    0x0A,
    0x3E,
    0x20,
];

/// `\r\n[TCP  RC] Connecting to `: the start of the report of a connection.
pub const CONNECT_HEAD: [u8; 26] = [
    0x0D,
    0x0A,
    0x5B,
    0x54,
    0x43,
    0x50,
    0x20,
    0x20,
    0x52,
    0x43,
    0x5D,
    0x20,
    0x43,
    0x6F,
    0x6E,
    0x6E,
    0x65,
    0x63,
    0x74,
    0x69,
    0x6E,
    0x67,
    0x20,
    0x74,
    0x6F,
    0x20,
];

/// `-1`: what stands in place of a count or of data when a transfer failed.
pub const MINUS_ONE: [u8; 2] = [0x2D, 0x31];

/// The most digits that a count in a reply may have. A count of up to nine
/// digits fits a machine word of any width.
pub const MAX_COUNT_DIGITS: usize = 9;

/// Whether `reply` starts with `head`, ends with `tail`, and the two do not
/// overlap.
pub open spec fn framed(head: Seq<u8>, tail: Seq<u8>, reply: Seq<u8>) -> bool {
    &&& head.len() + tail.len() <= reply.len()
    &&& head.is_prefix_of(reply)
    &&& tail.is_suffix_of(reply)
}

/// What stands between `head` and `tail` in a reply that they frame.
pub open spec fn body(head: Seq<u8>, tail: Seq<u8>, reply: Seq<u8>) -> Seq<u8> {
    reply.subrange(head.len() as int, reply.len() - tail.len())
}

/// The index of the first `byte` in `text`, or the length of `text` where
/// there is none.
pub open spec fn position(text: Seq<u8>, byte: u8) -> nat
    decreases text.len(),
{
    if text.len() == 0 || text[0] == byte {
        0
    } else {
        1 + position(text.skip(1), byte)
    }
}

/// Whether `byte` occurs nowhere in `text`.
pub open spec fn free_of(text: Seq<u8>, byte: u8) -> bool {
    forall|i: int| 0 <= i < text.len() ==> #[trigger] text[i] != byte
}

/// Whether `reply` reports a failure: any bytes, then the line `ERROR` and
/// the prompt.
pub open spec fn is_failure(reply: Seq<u8>) -> bool {
    FAILED@.is_suffix_of(reply)
}

/// The name of the joined network, where `reply` reports one:
/// `\r\n[JOIN   ] <name>,<address>,0,0\r\nOK\r\n> `, with no comma in the
/// name or in the address. The name may be any bytes but a comma.
pub open spec fn joined_name(reply: Seq<u8>) -> Option<Seq<u8>> {
    let fields = body(JOIN_HEAD@, JOIN_TAIL@, reply);
    let comma = position(fields, COMMA);
    if framed(JOIN_HEAD@, JOIN_TAIL@, reply) && comma < fields.len() && free_of(
        fields.skip(comma as int + 1),
        COMMA,
    ) {
        Some(fields.take(comma as int))
    } else {
        None
    }
}

/// Whether `reply` reports that a connection is being made:
/// `\r\n[TCP  RC] Connecting to <anything>\r\nOK\r\n> `.
pub open spec fn is_connected(reply: Seq<u8>) -> bool {
    framed(CONNECT_HEAD@, DONE@, reply)
}

/// Whether `reply` is the success that says nothing: `\r\n\r\nOK\r\n> `.
pub open spec fn is_closed(reply: Seq<u8>) -> bool {
    reply == CRLF@ + DONE@
}

/// Whether `reply` reports a failed transfer: `\r\n-1\r\nOK\r\n> `.
pub open spec fn is_minus_one(reply: Seq<u8>) -> bool {
    reply == CRLF@ + MINUS_ONE@ + DONE@
}

/// The number of bytes that the module accepted, where `reply` reports one:
/// `\r\n<count>\r\nOK\r\n> `, the count being one to nine decimal digits.
pub open spec fn written_count(reply: Seq<u8>) -> Option<nat> {
    let digits = body(CRLF@, DONE@, reply);
    if framed(CRLF@, DONE@, reply) && 1 <= digits.len() <= MAX_COUNT_DIGITS && all_digits(digits) {
        Some(decimal_value(digits))
    } else {
        None
    }
}

/// The data that the module hands over, where `reply` holds some:
/// `\r\n<data>\r\nOK\r\n> `. The data may be any bytes.
pub open spec fn read_data(reply: Seq<u8>) -> Option<Seq<u8>> {
    if framed(CRLF@, DONE@, reply) {
        Some(body(CRLF@, DONE@, reply))
    } else {
        None
    }
}

/// What the module answered to a write.
#[derive(Clone, Copy, Debug, PartialEq, Eq, Structural)]
pub enum WriteResponse {
    /// The module accepted this many bytes.
    Written(usize),
    /// The module could not write.
    Error,
}

/// What the module answered to a read.
#[derive(Clone, Copy, Debug)]
pub enum ReadResponse<'a> {
    /// The module handed over these bytes.
    Data(&'a [u8]),
    /// The module could not read.
    Failed,
}

/// The first `byte` of a text is where `position` says, and not before.
pub proof fn lemma_position(text: Seq<u8>, byte: u8)
    ensures
        position(text, byte) <= text.len(),
        free_of(text.take(position(text, byte) as int), byte),
        position(text, byte) < text.len() ==> text[position(text, byte) as int] == byte,
    decreases text.len(),
{
    if text.len() > 0 && text[0] != byte {
        let rest = text.skip(1);
        lemma_position(rest, byte);
        let at = position(text, byte);
        assert forall|i: int| 0 <= i < at implies #[trigger] text.take(at as int)[i] != byte by {
            if i > 0 {
                assert(text.take(at as int)[i] == rest.take(at - 1)[i - 1]);
            }
        }
        if at < text.len() {
            assert(text[at as int] == rest[at - 1]);
        }
    }
}

/// In a text that starts with bytes free of `byte` and goes on with `byte`,
/// the first `byte` is right behind those bytes.
pub proof fn lemma_position_after(before: Seq<u8>, byte: u8, after: Seq<u8>)
    requires
        free_of(before, byte),
    ensures
        position(before + seq![byte] + after, byte) == before.len(),
    decreases before.len(),
{
    let text = before + seq![byte] + after;
    if before.len() == 0 {
        assert(text[0] == byte);
    } else {
        assert(text[0] == before[0]);
        assert(text.skip(1) =~= before.skip(1) + seq![byte] + after);
        assert(free_of(before.skip(1), byte)) by {
            assert forall|i: int| 0 <= i < before.skip(1).len() implies #[trigger] before.skip(
                1,
            )[i] != byte by {
                assert(before.skip(1)[i] == before[i + 1]);
            }
        }
        lemma_position_after(before.skip(1), byte, after);
    }
}

/// Whether `reply` starts with `tag`.
pub fn starts_with(reply: &[u8], tag: &[u8]) -> (found: bool)
    ensures
        found == tag@.is_prefix_of(reply@),
{
    if reply.len() < tag.len() {
        return false;
    }
    let mut i: usize = 0;
    while i < tag.len()
        invariant
            i <= tag@.len(),
            tag@.len() <= reply@.len(),
            forall|k: int| 0 <= k < i ==> reply@[k] == tag@[k],
        decreases tag@.len() - i,
    {
        if reply[i] != tag[i] {
            assert(reply@.subrange(0, tag@.len() as int)[i as int] != tag@[i as int]);
            return false;
        }
        i += 1;
    }
    assert(tag@ =~= reply@.subrange(0, tag@.len() as int));
    true
}

/// Whether `reply` ends with `tag`.
pub fn ends_with(reply: &[u8], tag: &[u8]) -> (found: bool)
    ensures
        found == tag@.is_suffix_of(reply@),
{
    if reply.len() < tag.len() {
        return false;
    }
    let offset: usize = reply.len() - tag.len();
    let mut i: usize = 0;
    while i < tag.len()
        invariant
            i <= tag@.len(),
            offset + tag@.len() == reply@.len(),
            reply@.len() <= usize::MAX,
            forall|k: int| 0 <= k < i ==> reply@[offset + k] == tag@[k],
        decreases tag@.len() - i,
    {
        if reply[offset + i] != tag[i] {
            assert(reply@.subrange(offset as int, reply@.len() as int)[i as int] != tag@[i as int]);
            return false;
        }
        i += 1;
    }
    assert(tag@ =~= reply@.subrange(offset as int, reply@.len() as int));
    true
}

/// Whether `reply` starts with `head`, ends with `tail`, and is long enough
/// to hold both.
pub fn is_framed(head: &[u8], tail: &[u8], reply: &[u8]) -> (found: bool)
    ensures
        found == framed(head@, tail@, reply@),
{
    if reply.len() < head.len() || reply.len() - head.len() < tail.len() {
        return false;
    }
    starts_with(reply, head) && ends_with(reply, tail)
}

/// The index of the first `byte` in `text`, or the length of `text`.
pub fn find(text: &[u8], byte: u8) -> (at: usize)
    ensures
        at == position(text@, byte),
{
    let mut i: usize = 0;
    assert(text@.skip(0) =~= text@);
    while i < text.len() && text[i] != byte
        invariant
            i <= text@.len(),
            position(text@, byte) == i + position(text@.skip(i as int), byte),
        decreases text@.len() - i,
    {
        proof {
            let rest = text@.skip(i as int);
            assert(rest[0] == text@[i as int]);
            assert(rest.skip(1) =~= text@.skip(i + 1));
        }
        i += 1;
    }
    proof {
        let rest = text@.skip(i as int);
        if i < text@.len() {
            assert(rest[0] == text@[i as int]);
        }
    }
    i
}

/// Whether every byte of `text` is a decimal digit.
pub fn only_digits(text: &[u8]) -> (yes: bool)
    ensures
        yes == all_digits(text@),
{
    let mut i: usize = 0;
    while i < text.len()
        invariant
            i <= text@.len(),
            forall|k: int| 0 <= k < i ==> is_digit(#[trigger] text@[k]),
        decreases text@.len() - i,
    {
        if text[i] < ZERO || text[i] > NINE {
            assert(!is_digit(text@[i as int]));
            return false;
        }
        i += 1;
    }
    true
}

/// The number at the start of `input`, as `drogue_nom_utils::parse_usize`
/// reads it: the value of the leading run of decimal digits, provided that
/// the run is not empty and that a byte follows it.
///
/// The outside function adds the digits up in a machine word and does not
/// guard against overflow, so it is only called on runs of at most
/// `MAX_COUNT_DIGITS` digits.
#[verifier::external_body]
fn leading_number(input: &[u8]) -> (number: Option<usize>)
    requires
        digit_run(input@) <= MAX_COUNT_DIGITS,
    ensures
        number is Some <==> 0 < digit_run(input@) < input@.len(),
        number matches Some(value) ==> value == decimal_value(
            input@.take(digit_run(input@) as int),
        ),
{
    match drogue_nom_utils::parse_usize(input) {
        Ok((_, value)) => Some(value),
        Err(_) => None,
    }
}

/// Reads the reply to the command that joins a network.
///
/// Whether the reply reports a joined network is decided by its form alone.
/// Where it does, the result is `Joined` with the network's name if the name
/// can be held, and `Success` if it cannot. The result is `Error` where the
/// reply reports no joined network and ends as a failure does, and `None`
/// where it is neither.
pub fn join_response(reply: &[u8]) -> (response: Option<Response>)
    ensures
        match response {
            Some(Response::Joined(name)) => joined_name(reply@) == Some(name@) && holdable(name@),
            Some(Response::Success()) => joined_name(reply@) matches Some(name) && !holdable(
                name,
            ),
            Some(Response::Error()) => joined_name(reply@) is None && is_failure(reply@),
            None => joined_name(reply@) is None && !is_failure(reply@),
        },
{
    if is_framed(&JOIN_HEAD, &JOIN_TAIL, reply) {
        let fields = &reply[JOIN_HEAD.len()..reply.len() - JOIN_TAIL.len()];
        let comma: usize = find(fields, COMMA);
        proof {
            lemma_position(fields@, COMMA);
        }
        if comma < fields.len() {
            let address = &fields[comma + 1..fields.len()];
            let next: usize = find(address, COMMA);
            proof {
                lemma_position(address@, COMMA);
                assert(address@ =~= fields@.skip(comma + 1));
                if next == address@.len() {
                    assert(address@.take(next as int) =~= address@);
                }
            }
            if next == address.len() {
                let name = &fields[0..comma];
                assert(name@ =~= fields@.take(comma as int));
                match Ssid::from_utf8(name) {
                    Some(ssid) => {
                        return Some(Response::Joined(ssid));
                    },
                    None => {
                        return Some(Response::Success());
                    },
                }
            }
        }
    }
    if ends_with(reply, &FAILED) {
        Some(Response::Error())
    } else {
        None
    }
}

/// Reads the reply to the command that starts a connection.
///
/// The result is `Ok` where the reply reports that the connection is being
/// made, `Error` where it does not and ends as a failure does, and `None`
/// where it is neither.
pub fn connect_response(reply: &[u8]) -> (response: Option<Response>)
    ensures
        match response {
            Some(Response::Success()) => is_connected(reply@),
            Some(Response::Error()) => !is_connected(reply@) && is_failure(reply@),
            Some(Response::Joined(_)) => false,
            None => !is_connected(reply@) && !is_failure(reply@),
        },
{
    if is_framed(&CONNECT_HEAD, &DONE, reply) {
        Some(Response::Success())
    } else if ends_with(reply, &FAILED) {
        Some(Response::Error())
    } else {
        None
    }
}

/// Reads the reply to the command that ends a connection.
///
/// The result is `Ok` where the reply is the empty success, `Error` where it
/// is not and ends as a failure does, and `None` where it is neither.
pub fn close_response(reply: &[u8]) -> (response: Option<Response>)
    ensures
        match response {
            Some(Response::Success()) => is_closed(reply@),
            Some(Response::Error()) => !is_closed(reply@) && is_failure(reply@),
            Some(Response::Joined(_)) => false,
            None => !is_closed(reply@) && !is_failure(reply@),
        },
{
    if reply.len() == CRLF.len() + DONE.len() && is_framed(&CRLF, &DONE, reply) {
        assert(reply@ =~= CRLF@ + DONE@);
        Some(Response::Success())
    } else {
        proof {
            if reply@ == CRLF@ + DONE@ {
                assert(CRLF@ =~= reply@.subrange(0, 2));
                assert(DONE@ =~= reply@.subrange(2, 10));
            }
        }
        if ends_with(reply, &FAILED) {
            Some(Response::Error())
        } else {
            None
        }
    }
}

/// Reads the reply to a write.
///
/// The result is `Written` with the count where the reply reports one, `Error`
/// where it reports a failed transfer, and `None` where it is neither.
pub fn write_response(reply: &[u8]) -> (response: Option<WriteResponse>)
    ensures
        match response {
            Some(WriteResponse::Written(count)) => written_count(reply@) == Some(count as nat),
            Some(WriteResponse::Error) => written_count(reply@) is None && is_minus_one(reply@),
            None => written_count(reply@) is None && !is_minus_one(reply@),
        },
{
    if is_framed(&CRLF, &DONE, reply) {
        let digits = &reply[CRLF.len()..reply.len() - DONE.len()];
        if 1 <= digits.len() && digits.len() <= MAX_COUNT_DIGITS && only_digits(digits) {
            let input = &reply[CRLF.len()..reply.len()];
            proof {
                let tail = reply@.subrange(reply@.len() - DONE@.len(), reply@.len() as int);
                assert(tail =~= DONE@);
                assert(input@ =~= digits@ + tail);
                assert(!is_digit(tail[0]));
                lemma_digit_run_of_digits(digits@, tail);
                assert(input@.take(digits@.len() as int) =~= digits@);
            }
            let number = leading_number(input);
            match number {
                Some(count) => {
                    return Some(WriteResponse::Written(count));
                },
                None => {
                    assert(false);
                },
            }
        }
        if digits.len() == MINUS_ONE.len() && starts_with(digits, &MINUS_ONE) {
            assert(digits@ =~= MINUS_ONE@);
            assert(reply@ =~= CRLF@ + MINUS_ONE@ + DONE@);
            return Some(WriteResponse::Error);
        }
    }
    proof {
        if is_minus_one(reply@) {
            assert(CRLF@ =~= reply@.subrange(0, 2));
            assert(DONE@ =~= reply@.subrange(4, 12));
            assert(MINUS_ONE@ =~= reply@.subrange(2, 4).subrange(0, 2));
        }
    }
    None
}

/// Reads the reply to a read.
///
/// The result is `Data` where the reply is a success, whatever the data is,
/// `Failed` where it is not and reports a failed transfer, and `None` where
/// it is neither. The form of a success is tried first, and it takes `-1`
/// for data as it takes any bytes: see `lemma_minus_one_is_data`.
pub fn read_response<'a>(reply: &'a [u8]) -> (response: Option<ReadResponse<'a>>)
    ensures
        match response {
            Some(ReadResponse::Data(data)) => read_data(reply@) == Some(data@),
            Some(ReadResponse::Failed) => read_data(reply@) is None && is_minus_one(reply@),
            None => read_data(reply@) is None && !is_minus_one(reply@),
        },
{
    if is_framed(&CRLF, &DONE, reply) {
        let data = &reply[CRLF.len()..reply.len() - DONE.len()];
        Some(ReadResponse::Data(data))
    } else if reply.len() == CRLF.len() + MINUS_ONE.len() + DONE.len() && starts_with(
        reply,
        &CRLF,
    ) && starts_with(&reply[CRLF.len()..reply.len()], &MINUS_ONE) && ends_with(reply, &DONE) {
        assert(reply@ =~= CRLF@ + MINUS_ONE@ + DONE@);
        Some(ReadResponse::Failed)
    } else {
        proof {
            if is_minus_one(reply@) {
                lemma_minus_one_is_data(reply@);
            }
        }
        None
    }
}

/// A reply of the form that reports a failed transfer is also a success
/// whose data is `-1`.
pub proof fn lemma_minus_one_is_data(reply: Seq<u8>)
    requires
        is_minus_one(reply),
    ensures
        read_data(reply) == Some(MINUS_ONE@),
{
    assert(CRLF@ =~= reply.subrange(0, 2));
    assert(DONE@ =~= reply.subrange(4, 12));
    assert(body(CRLF@, DONE@, reply) =~= MINUS_ONE@);
}

/// A reply made of the head, a name and an address without commas, and the
/// tail of a joined network is read as joined to that name, whatever else
/// the name holds.
pub proof fn lemma_joined_reply(name: Seq<u8>, address: Seq<u8>)
    requires
        free_of(name, COMMA),
        free_of(address, COMMA),
    ensures
        joined_name(JOIN_HEAD@ + name + seq![COMMA] + address + JOIN_TAIL@) == Some(name),
        !is_failure(JOIN_HEAD@ + name + seq![COMMA] + address + JOIN_TAIL@),
{
    let reply = JOIN_HEAD@ + name + seq![COMMA] + address + JOIN_TAIL@;
    let fields = name + seq![COMMA] + address;
    assert(JOIN_HEAD@ =~= reply.subrange(0, JOIN_HEAD@.len() as int));
    assert(JOIN_TAIL@ =~= reply.subrange(reply.len() - JOIN_TAIL@.len(), reply.len() as int));
    assert(body(JOIN_HEAD@, JOIN_TAIL@, reply) =~= fields);
    lemma_position_after(name, COMMA, address);
    assert(fields.skip(name.len() as int + 1) =~= address);
    assert(fields.take(name.len() as int) =~= name);
    if is_failure(reply) {
        let end = reply.subrange(reply.len() - FAILED@.len(), reply.len() as int);
        assert(end[4] == reply[reply.len() - 5]);
        assert(reply[reply.len() - 5] == JOIN_TAIL@[7]);
    }
}

/// A reply made of the framing of a success around any bytes is read as
/// data, and the data is those bytes.
pub proof fn lemma_data_reply(data: Seq<u8>)
    ensures
        read_data(CRLF@ + data + DONE@) == Some(data),
{
    let reply = CRLF@ + data + DONE@;
    assert(CRLF@ =~= reply.subrange(0, CRLF@.len() as int));
    assert(DONE@ =~= reply.subrange(reply.len() - DONE@.len(), reply.len() as int));
    assert(body(CRLF@, DONE@, reply) =~= data);
}

/// A reply made of the report of a connection, any bytes, and the end of a
/// success is read as a connection that is being made.
pub proof fn lemma_connected_reply(host: Seq<u8>)
    ensures
        is_connected(CONNECT_HEAD@ + host + DONE@),
{
    let reply = CONNECT_HEAD@ + host + DONE@;
    assert(CONNECT_HEAD@ =~= reply.subrange(0, CONNECT_HEAD@.len() as int));
    assert(DONE@ =~= reply.subrange(reply.len() - DONE@.len(), reply.len() as int));
}

/// A reply made of any bytes and the end of a failure is a failure, and it
/// is read as neither a joined network nor a connection nor data nor a
/// count.
pub proof fn lemma_failure_reply(before: Seq<u8>)
    ensures
        is_failure(before + FAILED@),
        joined_name(before + FAILED@) is None,
        !is_connected(before + FAILED@),
        !is_closed(before + FAILED@),
        read_data(before + FAILED@) is None,
        written_count(before + FAILED@) is None,
        !is_minus_one(before + FAILED@),
{
    let reply = before + FAILED@;
    let n = reply.len() as int;
    assert(FAILED@ =~= reply.subrange(n - FAILED@.len(), n));
    assert(reply[n - 5] == FAILED@[4]);
    if DONE@.is_suffix_of(reply) {
        assert(reply.subrange(n - DONE@.len(), n)[3] == reply[n - 5]);
    }
    if JOIN_TAIL@.is_suffix_of(reply) {
        assert(reply.subrange(n - JOIN_TAIL@.len(), n)[7] == reply[n - 5]);
    }
    if is_closed(reply) {
        assert((CRLF@ + DONE@)[5] == reply[n - 5]);
    }
    if is_minus_one(reply) {
        assert((CRLF@ + MINUS_ONE@ + DONE@)[7] == reply[n - 5]);
    }
}

/// The reply that reports the count `n` is read as that count, for every
/// count of at most nine digits.
pub proof fn lemma_written_reply(n: nat)
    requires
        n < crate::decimal::pow10(MAX_COUNT_DIGITS as nat),
    ensures
        written_count(CRLF@ + crate::decimal::decimal_digits(n) + DONE@) == Some(n),
{
    let digits = crate::decimal::decimal_digits(n);
    let reply = CRLF@ + digits + DONE@;
    crate::decimal::lemma_digits_are_digits(n);
    crate::decimal::lemma_digits_len(n, MAX_COUNT_DIGITS as nat);
    crate::decimal::lemma_value_of_digits(n);
    assert(CRLF@ =~= reply.subrange(0, CRLF@.len() as int));
    assert(DONE@ =~= reply.subrange(reply.len() - DONE@.len(), reply.len() as int));
    assert(body(CRLF@, DONE@, reply) =~= digits);
}

/// A copy of `bytes`.
pub fn slice_to_vec(bytes: &[u8]) -> (copy: Vec<u8>)
    ensures
        copy@ == bytes@,
{
    let mut copy: Vec<u8> = Vec::new();
    let mut i: usize = 0;
    while i < bytes.len()
        invariant
            i <= bytes@.len(),
            copy@ == bytes@.take(i as int),
        decreases bytes@.len() - i,
    {
        copy.push(bytes[i]);
        assert(bytes@.take(i + 1) =~= bytes@.take(i as int).push(bytes@[i as int]));
        i += 1;
    }
    assert(bytes@.take(bytes@.len() as int) =~= bytes@);
    copy
}

} // verus!
