//! The text of the commands that the module understands.
//!
//! A command is a two-letter opcode, for most of them an equals sign and a
//! value, and a carriage return. It is put together in a fixed-capacity
//! string of the `heapless` crate. The text of an IPv6 address is the one
//! that the `no_std_net` crate writes. What those crates do is taken on
//! trust in the five functions at the top of this file, and everything
//! that is built on them is verified.

use crate::decimal::{decimal, decimal_digits, is_digit, lemma_digits_are_digits, lemma_word_digits};
use vstd::prelude::*;
use vstd::string::StringSliceAdditionalSpecFns;

verus! {

/// ASCII carriage return, the end of every command.
pub const CR: u8 = 0x0D;

/// ASCII line feed.
pub const LF: u8 = 0x0A;

/// ASCII `=`, between an opcode and its value.
pub const EQUALS: u8 = 0x3D;

/// ASCII `.`, between the parts of an address.
pub const DOT: u8 = 0x2E;

/// The number of bytes that a command can hold.
pub const CAPACITY: usize = 72;

/// The longest value, in bytes, that fits a command beside its opcode, the
/// equals sign and the carriage return.
pub const MAX_VALUE: usize = 68;

/// One command for the module, at most `CAPACITY` bytes long. Its contents
/// are held by a `heapless::String` and are known to the verifier only as
/// the sequence of bytes `command_text`.
#[verifier::external_body]
pub struct Command {
    text: heapless::String<heapless::consts::U72>,
}

/// The bytes that a command holds.
pub uninterp spec fn command_text(command: Command) -> Seq<u8>;

impl View for Command {
    type V = Seq<u8>;

    open spec fn view(&self) -> Seq<u8> {
        command_text(*self)
    }
}

/// `heapless::String::new`: a string that holds nothing.
#[verifier::external_body]
fn empty() -> (command: Command)
    ensures
        command_text(command) == Seq::<u8>::empty(),
{
    Command { text: heapless::String::new() }
}

/// `heapless::String::push` with an ASCII character: the byte is appended
/// if the string holds fewer bytes than its capacity, and the string is left
/// as it was otherwise.
#[verifier::external_body]
fn push(command: &mut Command, byte: u8) -> (done: Result<(), ()>)
    requires
        byte < 0x80,
    ensures
        done is Ok <==> command_text(*old(command)).len() < CAPACITY,
        done is Ok ==> command_text(*final(command)) == command_text(*old(command)).push(byte),
        done is Err ==> command_text(*final(command)) == command_text(*old(command)),
{
    command.text.push(byte as char)
}

/// `heapless::String::push_str`: the bytes of `text` are appended if all of
/// them fit within the capacity, and the string is left as it was otherwise.
#[verifier::external_body]
fn push_str(command: &mut Command, text: &str) -> (done: Result<(), ()>)
    ensures
        done is Ok <==> command_text(*old(command)).len() + text.spec_bytes().len() <= CAPACITY,
        done is Ok ==> command_text(*final(command)) == command_text(*old(command))
            + text.spec_bytes(),
        done is Err ==> command_text(*final(command)) == command_text(*old(command)),
{
    command.text.push_str(text)
}

/// `str::as_bytes` on the contents of a `heapless::String`: the bytes that
/// the string holds.
#[verifier::external_body]
fn contents(command: &Command) -> (bytes: &[u8])
    ensures
        bytes@ == command_text(*command),
{
    command.text.as_bytes()
}

/// The text of the IPv6 address that sixteen bytes make, as the `no_std_net`
/// crate writes it.
pub uninterp spec fn ipv6_text(octets: Seq<u8>) -> Seq<u8>;

/// `Display` of `no_std_net::Ipv6Addr`, which `drogue_network::addr` hands
/// on: the text of the address that the sixteen bytes make. The text is a
/// function of the bytes alone; nothing more is claimed of it.
#[verifier::external_body]
fn v6_text(octets: &[u8; 16]) -> (text: Vec<u8>)
    ensures
        text@ == ipv6_text(octets@),
{
    format!("{}", drogue_network::addr::Ipv6Addr::from(*octets)).into_bytes()
}

/// The operations of the module that this driver uses, each named by what it
/// sets or starts.
#[derive(Clone, Copy, Debug, PartialEq, Eq, Structural)]
pub enum Opcode {
    /// `CB`: the security mode of the access point.
    SecurityMode,
    /// `C1`: the network's name.
    Ssid,
    /// `C2`: the passphrase.
    Passphrase,
    /// `C3`: the security level.
    SecurityLevel,
    /// `C0`: associate with the access point.
    Associate,
    /// `P0`: the socket that the following commands address.
    Socket,
    /// `P1`: the transport protocol.
    Protocol,
    /// `P3`: the remote host's address.
    RemoteIp,
    /// `P4`: the remote port.
    RemotePort,
    /// `P6`: start or stop the client connection.
    Client,
    /// `S1`: the number of bytes of the next write.
    WriteLength,
    /// `S0`: write the bytes that follow.
    WriteStart,
    /// `R1`: the number of bytes wanted by the next read.
    ReadLength,
    /// `R2`: how long the module waits for data.
    ReadTimeout,
    /// `R3`: whether replies are paginated.
    ReadPagination,
    /// `R0`: read.
    ReadStart,
    /// `MT`: how much the module says about itself.
    Verbosity,
}

impl Opcode {
    /// The two ASCII letters of the opcode.
    pub open spec fn letters(self) -> (u8, u8) {
        match self {
            Opcode::SecurityMode => (0x43, 0x42),
            Opcode::Ssid => (0x43, 0x31),
            Opcode::Passphrase => (0x43, 0x32),
            Opcode::SecurityLevel => (0x43, 0x33),
            Opcode::Associate => (0x43, 0x30),
            Opcode::Socket => (0x50, 0x30),
            Opcode::Protocol => (0x50, 0x31),
            Opcode::RemoteIp => (0x50, 0x33),
            Opcode::RemotePort => (0x50, 0x34),
            Opcode::Client => (0x50, 0x36),
            Opcode::WriteLength => (0x53, 0x31),
            Opcode::WriteStart => (0x53, 0x30),
            Opcode::ReadLength => (0x52, 0x31),
            Opcode::ReadTimeout => (0x52, 0x32),
            Opcode::ReadPagination => (0x52, 0x33),
            Opcode::ReadStart => (0x52, 0x30),
            Opcode::Verbosity => (0x4D, 0x54),
        }
    }

    /// The opcode as it stands at the head of a command.
    pub open spec fn text(self) -> Seq<u8> {
        seq![self.letters().0, self.letters().1]
    }

    /// The two ASCII letters of the opcode.
    pub fn code(self) -> (pair: (u8, u8))
        ensures
            pair == self.letters(),
            pair.0 < 0x80,
            pair.1 < 0x80,
    {
        match self {
            Opcode::SecurityMode => (0x43, 0x42),
            Opcode::Ssid => (0x43, 0x31),
            Opcode::Passphrase => (0x43, 0x32),
            Opcode::SecurityLevel => (0x43, 0x33),
            Opcode::Associate => (0x43, 0x30),
            Opcode::Socket => (0x50, 0x30),
            Opcode::Protocol => (0x50, 0x31),
            Opcode::RemoteIp => (0x50, 0x33),
            Opcode::RemotePort => (0x50, 0x34),
            Opcode::Client => (0x50, 0x36),
            Opcode::WriteLength => (0x53, 0x31),
            Opcode::WriteStart => (0x53, 0x30),
            Opcode::ReadLength => (0x52, 0x31),
            Opcode::ReadTimeout => (0x52, 0x32),
            Opcode::ReadPagination => (0x52, 0x33),
            Opcode::ReadStart => (0x52, 0x30),
            Opcode::Verbosity => (0x4D, 0x54),
        }
    }
}

/// The command that only names an operation: the opcode and a carriage
/// return.
pub open spec fn bare(opcode: Opcode) -> Seq<u8> {
    opcode.text().push(CR)
}

/// The command that gives an operation a value: the opcode, an equals sign,
/// the value and a carriage return.
pub open spec fn assignment(opcode: Opcode, value: Seq<u8>) -> Seq<u8> {
    opcode.text().push(EQUALS) + value + seq![CR]
}

/// An IPv4 address in dotted decimal notation.
pub open spec fn dotted(a: u8, b: u8, c: u8, d: u8) -> Seq<u8> {
    decimal_digits(a as nat) + seq![DOT] + decimal_digits(b as nat) + seq![DOT] + decimal_digits(
        c as nat,
    ) + seq![DOT] + decimal_digits(d as nat)
}

/// Whether every byte of `bytes` is an ASCII character.
pub open spec fn all_ascii(bytes: Seq<u8>) -> bool {
    forall|i: int| 0 <= i < bytes.len() ==> #[trigger] bytes[i] < 0x80
}

/// An IPv4 address in dotted decimal notation is ASCII and at most fifteen
/// bytes long.
pub proof fn lemma_dotted_fits(a: u8, b: u8, c: u8, d: u8)
    ensures
        dotted(a, b, c, d).len() <= 15,
        all_ascii(dotted(a, b, c, d)),
{
    lemma_octet_digits(a);
    lemma_octet_digits(b);
    lemma_octet_digits(c);
    lemma_octet_digits(d);
    lemma_digits_are_digits(a as nat);
    lemma_digits_are_digits(b as nat);
    lemma_digits_are_digits(c as nat);
    lemma_digits_are_digits(d as nat);
    let text = dotted(a, b, c, d);
    let first = decimal_digits(a as nat);
    let second = decimal_digits(b as nat);
    let third = decimal_digits(c as nat);
    let fourth = decimal_digits(d as nat);
    assert forall|i: int| 0 <= i < text.len() implies #[trigger] text[i] < 0x80 by {
        if i < first.len() {
            assert(is_digit(first[i]));
        } else if i == first.len() {
        } else if i < first.len() + 1 + second.len() {
            assert(is_digit(second[i - first.len() - 1]));
        } else if i == first.len() + 1 + second.len() {
        } else if i < first.len() + 1 + second.len() + 1 + third.len() {
            assert(is_digit(third[i - first.len() - second.len() - 2]));
        } else if i == first.len() + 1 + second.len() + 1 + third.len() {
        } else {
            assert(is_digit(fourth[i - first.len() - second.len() - third.len() - 3]));
        }
    }
}

/// The text of a byte has at most three digits.
pub proof fn lemma_octet_digits(n: u8)
    ensures
        1 <= decimal_digits(n as nat).len() <= 3,
{
    reveal_with_fuel(crate::decimal::pow10, 4);
    crate::decimal::lemma_digits_len(n as nat, 3);
    lemma_digits_are_digits(n as nat);
}

/// Appends one ASCII byte to a command that has room for it.
fn put(command: &mut Command, byte: u8)
    requires
        byte < 0x80,
        old(command)@.len() < CAPACITY,
    ensures
        final(command)@ == old(command)@.push(byte),
{
    let done = push(command, byte);
    assert(done is Ok);
}

/// Appends ASCII bytes to a command that has room for all of them.
fn put_all(command: &mut Command, bytes: &[u8])
    requires
        all_ascii(bytes@),
        old(command)@.len() + bytes@.len() <= CAPACITY,
    ensures
        final(command)@ == old(command)@ + bytes@,
{
    let mut i: usize = 0;
    while i < bytes.len()
        invariant
            i <= bytes@.len(),
            all_ascii(bytes@),
            old(command)@.len() + bytes@.len() <= CAPACITY,
            command@ == old(command)@ + bytes@.take(i as int),
        decreases bytes@.len() - i,
    {
        put(command, bytes[i]);
        assert(bytes@.take(i + 1) =~= bytes@.take(i as int).push(bytes@[i as int]));
        assert(command@ =~= old(command)@ + bytes@.take(i + 1));
        i += 1;
    }
    assert(bytes@.take(bytes@.len() as int) =~= bytes@);
}

/// Appends the decimal text of `n` to a command that has room for it.
fn put_number(command: &mut Command, n: usize)
    requires
        old(command)@.len() + decimal_digits(n as nat).len() <= CAPACITY,
    ensures
        final(command)@ == old(command)@ + decimal_digits(n as nat),
{
    let digits = decimal(n);
    proof {
        lemma_digits_are_digits(n as nat);
        assert(all_ascii(digits@)) by {
            assert forall|i: int| 0 <= i < digits@.len() implies #[trigger] digits@[i] < 0x80 by {
                assert(is_digit(digits@[i]));
            }
        }
    }
    put_all(command, digits.as_slice());
}

/// Starts a command with its opcode.
fn head(opcode: Opcode) -> (command: Command)
    ensures
        command@ == opcode.text(),
{
    let mut command = empty();
    let (first, second) = opcode.code();
    put(&mut command, first);
    put(&mut command, second);
    assert(command@ =~= opcode.text());
    command
}

impl Command {
    /// The command that names `opcode` and gives it no value.
    pub fn bare(opcode: Opcode) -> (command: Command)
        ensures
            command@ == bare(opcode),
    {
        let mut command = head(opcode);
        put(&mut command, CR);
        command
    }

    /// The command that sets `opcode` to the text `value`.
    pub fn with_text(opcode: Opcode, value: &str) -> (command: Command)
        requires
            value.spec_bytes().len() <= MAX_VALUE,
        ensures
            command@ == assignment(opcode, value.spec_bytes()),
    {
        let mut command = head(opcode);
        put(&mut command, EQUALS);
        let done = push_str(&mut command, value);
        assert(done is Ok);
        put(&mut command, CR);
        assert(command@ =~= assignment(opcode, value.spec_bytes()));
        command
    }

    /// The command that sets `opcode` to the number `n`, written in decimal.
    pub fn with_number(opcode: Opcode, n: usize) -> (command: Command)
        ensures
            command@ == assignment(opcode, decimal_digits(n as nat)),
    {
        let mut command = head(opcode);
        put(&mut command, EQUALS);
        proof {
            lemma_word_digits(n);
        }
        put_number(&mut command, n);
        put(&mut command, CR);
        assert(command@ =~= assignment(opcode, decimal_digits(n as nat)));
        command
    }

    /// The command that sets `opcode` to an IPv4 address, written in dotted
    /// decimal notation.
    pub fn with_address(opcode: Opcode, a: u8, b: u8, c: u8, d: u8) -> (command: Command)
        ensures
            command@ == assignment(opcode, dotted(a, b, c, d)),
    {
        let mut command = head(opcode);
        put(&mut command, EQUALS);
        proof {
            lemma_octet_digits(a);
            lemma_octet_digits(b);
            lemma_octet_digits(c);
            lemma_octet_digits(d);
        }
        put_number(&mut command, a as usize);
        put(&mut command, DOT);
        put_number(&mut command, b as usize);
        put(&mut command, DOT);
        put_number(&mut command, c as usize);
        put(&mut command, DOT);
        put_number(&mut command, d as usize);
        put(&mut command, CR);
        assert(command@ =~= assignment(opcode, dotted(a, b, c, d)));
        command
    }

    /// The command that sets `opcode` to the bytes `value`, where they are
    /// ASCII and at most `MAX_VALUE` of them.
    pub fn with_value(opcode: Opcode, value: &[u8]) -> (made: Option<Command>)
        ensures
            made is Some <==> value@.len() <= MAX_VALUE && all_ascii(value@),
            made matches Some(command) ==> command@ == assignment(opcode, value@),
    {
        if value.len() > MAX_VALUE {
            return None;
        }
        let mut i: usize = 0;
        while i < value.len()
            invariant
                i <= value@.len(),
                forall|k: int| 0 <= k < i ==> #[trigger] value@[k] < 0x80,
            decreases value@.len() - i,
        {
            if value[i] >= 0x80 {
                return None;
            }
            i += 1;
        }
        let mut command = head(opcode);
        put(&mut command, EQUALS);
        put_all(&mut command, value);
        put(&mut command, CR);
        assert(command@ =~= assignment(opcode, value@));
        Some(command)
    }

    /// The command that sets `opcode` to an IPv6 address, where the text of
    /// the address is ASCII and at most `MAX_VALUE` bytes.
    pub fn with_v6_address(opcode: Opcode, octets: &[u8; 16]) -> (made: Option<Command>)
        ensures
            made is Some <==> ipv6_text(octets@).len() <= MAX_VALUE && all_ascii(
                ipv6_text(octets@),
            ),
            made matches Some(command) ==> command@ == assignment(opcode, ipv6_text(octets@)),
    {
        let text = v6_text(octets);
        Command::with_value(opcode, text.as_slice())
    }

    /// The bytes of the command, as they are handed to the link.
    pub fn as_bytes(&self) -> (bytes: &[u8])
        ensures
            bytes@ == self@,
    {
        contents(self)
    }
}

} // verus!
