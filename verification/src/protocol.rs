//! The values that requests to the module are made of, and what a reply
//! amounts to.
//!
//! The name of a joined network is held in a fixed-capacity string of the
//! `heapless` crate, which takes text that is UTF-8. What that crate and the
//! check for UTF-8 do is taken on trust in the four functions below the
//! type, and what is built on them is verified.

use vstd::prelude::*;
use vstd::string::StringSliceAdditionalSpecFns;
use vstd::utf8::valid_utf8;

verus! {

/// The longest network name, in bytes.
pub const MAX_NAME: usize = 32;

/// The name of a network: UTF-8 text of at most `MAX_NAME` bytes. It is held
/// by a `heapless::String` and is known to the verifier only as the
/// sequence of bytes `ssid_text`.
#[derive(Debug)]
#[verifier::external_body]
pub struct Ssid {
    text: heapless::String<heapless::consts::U32>,
}

/// The bytes of a network's name.
pub uninterp spec fn ssid_text(ssid: Ssid) -> Seq<u8>;

impl View for Ssid {
    type V = Seq<u8>;

    open spec fn view(&self) -> Seq<u8> {
        ssid_text(*self)
    }
}

/// `heapless::String::new`: a string that holds nothing.
#[verifier::external_body]
fn unnamed() -> (ssid: Ssid)
    ensures
        ssid_text(ssid) == Seq::<u8>::empty(),
{
    Ssid { text: heapless::String::new() }
}

/// `heapless::String::push_str`: the bytes of `text` are appended if all of
/// them fit within the capacity, and the string is left as it was otherwise.
#[verifier::external_body]
fn extend(ssid: &mut Ssid, text: &str) -> (done: Result<(), ()>)
    ensures
        done is Ok <==> ssid_text(*old(ssid)).len() + text.spec_bytes().len() <= MAX_NAME,
        done is Ok ==> ssid_text(*final(ssid)) == ssid_text(*old(ssid)) + text.spec_bytes(),
        done is Err ==> ssid_text(*final(ssid)) == ssid_text(*old(ssid)),
{
    ssid.text.push_str(text)
}

/// `core::str::from_utf8`: the bytes as text, where they are valid UTF-8,
/// and nothing where they are not. The text is made of the same bytes.
#[verifier::external_body]
fn text_of(bytes: &[u8]) -> (text: Option<&str>)
    ensures
        text is Some <==> valid_utf8(bytes@),
        text matches Some(read) ==> read.spec_bytes() == bytes@,
{
    core::str::from_utf8(bytes).ok()
}

/// `str::as_bytes` on the contents of a `heapless::String`: the bytes that
/// the string holds.
#[verifier::external_body]
fn spelled(ssid: &Ssid) -> (bytes: &[u8])
    ensures
        bytes@ == ssid_text(*ssid),
{
    ssid.text.as_bytes()
}

/// Whether a name can be held: it is valid UTF-8 and at most `MAX_NAME`
/// bytes long.
pub open spec fn holdable(name: Seq<u8>) -> bool {
    name.len() <= MAX_NAME && valid_utf8(name)
}

impl Ssid {
    /// The name that `bytes` spell, where they are valid UTF-8 and at most
    /// `MAX_NAME` of them.
    pub fn from_utf8(bytes: &[u8]) -> (made: Option<Ssid>)
        ensures
            made is Some <==> holdable(bytes@),
            made matches Some(ssid) ==> ssid@ == bytes@,
    {
        if bytes.len() > MAX_NAME {
            return None;
        }
        match text_of(bytes) {
            Some(text) => {
                let mut ssid = unnamed();
                let done = extend(&mut ssid, text);
                assert(done is Ok);
                assert(ssid@ =~= bytes@);
                Some(ssid)
            },
            None => None,
        }
    }

    /// The bytes of the name.
    pub fn as_bytes(&self) -> (bytes: &[u8])
        ensures
            bytes@ == self@,
    {
        spelled(self)
    }
}

/// The transport protocol of a connection.
#[derive(Clone, Copy, Debug, PartialEq, Eq, Structural)]
pub enum ConnectionType {
    Tcp,
    Udp,
}

/// The address of a host, by its bytes in network order.
#[derive(Clone, Copy, Debug)]
pub enum IpAddress {
    V4([u8; 4]),
    V6([u8; 16]),
}

/// The remote end of a connection: an address and a port.
#[derive(Clone, Copy, Debug)]
pub struct RemoteAddr {
    pub ip: IpAddress,
    pub port: u16,
}

/// What is needed to connect a socket.
#[derive(Clone, Copy, Debug)]
pub struct ConnectInfo {
    pub socket_num: usize,
    pub connection_type: ConnectionType,
    pub remote: RemoteAddr,
}

/// What is needed to write to a socket.
#[derive(Clone, Copy, Debug)]
pub struct WriteInfo<'a> {
    pub socket_num: usize,
    pub data: &'a [u8],
}

/// What the module answered to a command that reports a status.
#[derive(Debug)]
pub enum Response {
    /// The command succeeded.
    Success(),
    /// The command failed.
    Error(),
    /// The module joined the network of this name.
    Joined(Ssid),
}

} // verus!
