//! The commands that make up each operation, in the order in which they are
//! sent.
//!
//! The reply to the last command of a script is the one that says how the
//! operation went; the replies to the others are not looked at.

use crate::command::{
    all_ascii, assignment, bare, dotted, ipv6_text, lemma_dotted_fits, Command, Opcode, LF,
    MAX_VALUE,
};
use crate::decimal::decimal_digits;
use crate::parser::slice_to_vec;
use crate::protocol::{ConnectInfo, ConnectionType, IpAddress, WriteInfo};
use vstd::prelude::*;
use vstd::string::StringSliceAdditionalSpecFns;

verus! {

/// The most bytes that one write hands to the module.
pub const MAX_WRITE: usize = 1046;

/// The most bytes that one read asks of the module.
pub const MAX_READ: usize = 1460;

/// The security mode that is asked for when joining a network.
pub const SECURITY_MODE: usize = 2;

/// The security level that is asked for when joining a network.
pub const SECURITY_LEVEL: usize = 4;

/// How long the module waits for data before it answers a read, in its own
/// units.
pub const READ_TIMEOUT: usize = 15;

/// The number by which the module knows a protocol.
pub open spec fn protocol_number(protocol: ConnectionType) -> nat {
    match protocol {
        ConnectionType::Tcp => 0,
        ConnectionType::Udp => 1,
    }
}

/// The smaller of two numbers.
pub open spec fn at_most(n: nat, limit: nat) -> nat {
    if n > limit {
        limit
    } else {
        n
    }
}

/// The commands that join a network: security mode, name, passphrase,
/// security level, associate.
pub open spec fn join_script(ssid: Seq<u8>, password: Seq<u8>) -> Seq<Seq<u8>> {
    seq![
        assignment(Opcode::SecurityMode, decimal_digits(SECURITY_MODE as nat)),
        assignment(Opcode::Ssid, ssid),
        assignment(Opcode::Passphrase, password),
        assignment(Opcode::SecurityLevel, decimal_digits(SECURITY_LEVEL as nat)),
        bare(Opcode::Associate),
    ]
}

/// The text of an address: dotted decimal for IPv4, and what `ipv6_text`
/// gives for IPv6.
pub open spec fn address_text(ip: IpAddress) -> Seq<u8> {
    match ip {
        IpAddress::V4(octets) => dotted(octets[0], octets[1], octets[2], octets[3]),
        IpAddress::V6(octets) => ipv6_text(octets@),
    }
}

/// Whether the text of an address can stand in a command: it is ASCII and
/// at most `MAX_VALUE` bytes long. Every IPv4 address is.
pub open spec fn addressable(ip: IpAddress) -> bool {
    address_text(ip).len() <= MAX_VALUE && all_ascii(address_text(ip))
}

/// The commands that connect a socket: select the socket, select the
/// protocol, remote address, remote port, start the client.
pub open spec fn connect_script(info: ConnectInfo) -> Seq<Seq<u8>> {
    seq![
        assignment(Opcode::Socket, decimal_digits(info.socket_num as nat)),
        assignment(Opcode::Protocol, decimal_digits(protocol_number(info.connection_type))),
        assignment(Opcode::RemoteIp, address_text(info.remote.ip)),
        assignment(Opcode::RemotePort, decimal_digits(info.remote.port as nat)),
        assignment(Opcode::Client, decimal_digits(1)),
    ]
}

/// The commands that end a socket's connection: select the socket, stop the
/// client.
pub open spec fn close_script(socket: nat) -> Seq<Seq<u8>> {
    seq![
        assignment(Opcode::Socket, decimal_digits(socket)),
        assignment(Opcode::Client, decimal_digits(0)),
    ]
}

/// The part of `data` that one write hands over: its first `MAX_WRITE`
/// bytes.
pub open spec fn payload(data: Seq<u8>) -> Seq<u8> {
    data.take(at_most(data.len(), MAX_WRITE as nat) as int)
}

/// The command that starts a write, with the payload behind it. The two
/// travel as one run of transfers, so that the first byte of the payload
/// shares a transfer with the carriage return.
pub open spec fn write_stream(data: Seq<u8>) -> Seq<u8> {
    bare(Opcode::WriteStart) + payload(data)
}

/// The commands that write to a socket: select the socket, announce the
/// length, start the write and stream the payload.
pub open spec fn write_script(socket: nat, data: Seq<u8>) -> Seq<Seq<u8>> {
    seq![
        assignment(Opcode::Socket, decimal_digits(socket)),
        assignment(Opcode::WriteLength, decimal_digits(payload(data).len())),
        write_stream(data),
    ]
}

/// The command that triggers a read.
pub open spec fn read_trigger() -> Seq<u8> {
    bare(Opcode::ReadStart).push(LF)
}

/// The commands that read from a socket into room for `want` bytes: select
/// the socket, announce the length, which is at most `MAX_READ`, set the
/// timeout, set the pagination, trigger the read.
pub open spec fn read_script(socket: nat, want: nat) -> Seq<Seq<u8>> {
    seq![
        assignment(Opcode::Socket, decimal_digits(socket)),
        assignment(Opcode::ReadLength, decimal_digits(at_most(want, MAX_READ as nat))),
        assignment(Opcode::ReadTimeout, decimal_digits(READ_TIMEOUT as nat)),
        assignment(Opcode::ReadPagination, decimal_digits(1)),
        read_trigger(),
    ]
}

/// The command that tells the module to say no more than it is asked.
pub open spec fn quiet_command() -> Seq<u8> {
    assignment(Opcode::Verbosity, decimal_digits(1))
}

/// The byte sequences that a list of byte vectors holds.
pub open spec fn texts(script: Seq<Vec<u8>>) -> Seq<Seq<u8>> {
    Seq::new(script.len(), |i: int| script[i]@)
}

/// The bytes of a command that sets `opcode` to `n`.
fn numbered(opcode: Opcode, n: usize) -> (bytes: Vec<u8>)
    ensures
        bytes@ == assignment(opcode, decimal_digits(n as nat)),
{
    let command = Command::with_number(opcode, n);
    slice_to_vec(command.as_bytes())
}

/// The bytes of the command that tells the module to say no more than it
/// is asked.
pub fn quiet() -> (bytes: Vec<u8>)
    ensures
        bytes@ == quiet_command(),
{
    numbered(Opcode::Verbosity, 1)
}

/// The script that joins the network `ssid` with `password`.
pub fn join_commands(ssid: &str, password: &str) -> (script: Vec<Vec<u8>>)
    requires
        ssid.spec_bytes().len() <= crate::adapter::MAX_SSID,
        password.spec_bytes().len() <= crate::adapter::MAX_PASSWORD,
    ensures
        texts(script@) == join_script(ssid.spec_bytes(), password.spec_bytes()),
{
    let mut script: Vec<Vec<u8>> = Vec::new();
    script.push(numbered(Opcode::SecurityMode, SECURITY_MODE));
    let name = Command::with_text(Opcode::Ssid, ssid);
    script.push(slice_to_vec(name.as_bytes()));
    let passphrase = Command::with_text(Opcode::Passphrase, password);
    script.push(slice_to_vec(passphrase.as_bytes()));
    script.push(numbered(Opcode::SecurityLevel, SECURITY_LEVEL));
    let associate = Command::bare(Opcode::Associate);
    script.push(slice_to_vec(associate.as_bytes()));
    assert(texts(script@) =~= join_script(ssid.spec_bytes(), password.spec_bytes()));
    script
}

/// The script that makes the connection that `info` describes, where the
/// text of the remote address can stand in a command.
pub fn connect_commands(info: &ConnectInfo) -> (made: Option<Vec<Vec<u8>>>)
    ensures
        made is Some <==> addressable(info.remote.ip),
        made matches Some(script) ==> texts(script@) == connect_script(*info),
{
    let address = match info.remote.ip {
        IpAddress::V4(ip) => {
            proof {
                lemma_dotted_fits(ip[0], ip[1], ip[2], ip[3]);
            }
            Command::with_address(Opcode::RemoteIp, ip[0], ip[1], ip[2], ip[3])
        },
        IpAddress::V6(ip) => {
            match Command::with_v6_address(Opcode::RemoteIp, &ip) {
                Some(command) => command,
                None => {
                    return None;
                },
            }
        },
    };
    let mut script: Vec<Vec<u8>> = Vec::new();
    script.push(numbered(Opcode::Socket, info.socket_num));
    let number: usize = match info.connection_type {
        ConnectionType::Tcp => 0,
        ConnectionType::Udp => 1,
    };
    script.push(numbered(Opcode::Protocol, number));
    script.push(slice_to_vec(address.as_bytes()));
    script.push(numbered(Opcode::RemotePort, info.remote.port as usize));
    script.push(numbered(Opcode::Client, 1));
    assert(texts(script@) =~= connect_script(*info));
    Some(script)
}

/// The script that ends the connection of `socket`.
pub fn close_commands(socket: usize) -> (script: Vec<Vec<u8>>)
    ensures
        texts(script@) == close_script(socket as nat),
{
    let mut script: Vec<Vec<u8>> = Vec::new();
    script.push(numbered(Opcode::Socket, socket));
    script.push(numbered(Opcode::Client, 0));
    assert(texts(script@) =~= close_script(socket as nat));
    script
}

/// The script of the write that `info` describes. No more than `MAX_WRITE`
/// bytes of the data are announced and sent.
pub fn write_commands(info: &WriteInfo) -> (script: Vec<Vec<u8>>)
    ensures
        texts(script@) == write_script(info.socket_num as nat, info.data@),
{
    let socket: usize = info.socket_num;
    let data = info.data;
    let mut len: usize = data.len();
    if len > MAX_WRITE {
        len = MAX_WRITE;
    }
    let mut script: Vec<Vec<u8>> = Vec::new();
    script.push(numbered(Opcode::Socket, socket));
    script.push(numbered(Opcode::WriteLength, len));
    let start = Command::bare(Opcode::WriteStart);
    let mut stream: Vec<u8> = slice_to_vec(start.as_bytes());
    let mut i: usize = 0;
    while i < len
        invariant
            i <= len <= data@.len(),
            stream@ == bare(Opcode::WriteStart) + data@.take(i as int),
        decreases len - i,
    {
        stream.push(data[i]);
        assert(data@.take(i + 1) =~= data@.take(i as int).push(data@[i as int]));
        assert(stream@ =~= bare(Opcode::WriteStart) + data@.take(i + 1));
        i += 1;
    }
    script.push(stream);
    assert(texts(script@) =~= write_script(socket as nat, data@));
    script
}

/// The script that reads from `socket` into room for `want` bytes. No more
/// than `MAX_READ` bytes are asked for.
pub fn read_commands(socket: usize, want: usize) -> (script: Vec<Vec<u8>>)
    ensures
        texts(script@) == read_script(socket as nat, want as nat),
{
    let mut len: usize = want;
    if len > MAX_READ {
        len = MAX_READ;
    }
    let mut script: Vec<Vec<u8>> = Vec::new();
    script.push(numbered(Opcode::Socket, socket));
    script.push(numbered(Opcode::ReadLength, len));
    script.push(numbered(Opcode::ReadTimeout, READ_TIMEOUT));
    script.push(numbered(Opcode::ReadPagination, 1));
    let start = Command::bare(Opcode::ReadStart);
    let mut trigger: Vec<u8> = slice_to_vec(start.as_bytes());
    trigger.push(LF);
    script.push(trigger);
    assert(texts(script@) =~= read_script(socket as nat, want as nat));
    script
}

/// A write never announces or sends more than `MAX_WRITE` bytes, and of
/// data longer than that it announces and sends exactly the first
/// `MAX_WRITE` bytes.
pub proof fn lemma_write_is_clamped(socket: nat, data: Seq<u8>)
    ensures
        payload(data).len() <= MAX_WRITE,
        write_script(socket, data)[1] == assignment(
            Opcode::WriteLength,
            decimal_digits(payload(data).len()),
        ),
        write_script(socket, data)[2] == bare(Opcode::WriteStart) + payload(data),
        data.len() > MAX_WRITE ==> payload(data) == data.take(MAX_WRITE as int),
        data.len() > MAX_WRITE ==> payload(data).len() == MAX_WRITE,
        data.len() <= MAX_WRITE ==> payload(data) == data,
{
    if data.len() <= MAX_WRITE {
        assert(data.take(data.len() as int) =~= data);
    }
}

/// A read never asks the module for more than `MAX_READ` bytes, whatever
/// room it has.
pub proof fn lemma_read_is_clamped(socket: nat, want: nat)
    ensures
        at_most(want, MAX_READ as nat) <= MAX_READ,
        want > MAX_READ ==> at_most(want, MAX_READ as nat) == MAX_READ,
        read_script(socket, want)[1] == assignment(
            Opcode::ReadLength,
            decimal_digits(at_most(want, MAX_READ as nat)),
        ),
{
}

/// The reply that repeats the length which a write announced is read as
/// that length.
pub proof fn lemma_write_round_trip(socket: nat, data: Seq<u8>)
    ensures
        write_script(socket, data)[1] == assignment(
            Opcode::WriteLength,
            decimal_digits(payload(data).len()),
        ),
        crate::parser::written_count(
            crate::parser::CRLF@ + decimal_digits(payload(data).len()) + crate::parser::DONE@,
        ) == Some(payload(data).len()),
{
    lemma_write_is_clamped(socket, data);
    reveal_with_fuel(crate::decimal::pow10, 10);
    crate::parser::lemma_written_reply(payload(data).len());
}

} // verus!
