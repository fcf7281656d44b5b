use es_wifi::action::{Action, Event, Level, Step};
use es_wifi::adapter::ConnectError;
use es_wifi::arbiter::{Arbiter, IpProtocol, Outcome, SpiError, Unready};
use es_wifi::buffer::{Buffer, BUFFER_SIZE};
use es_wifi::command::{Command, Opcode, MAX_VALUE};
use es_wifi::ingress::Ingress;
use es_wifi::protocol::{ConnectInfo, ConnectionType, IpAddress, RemoteAddr, Ssid, WriteInfo};
use es_wifi::ready::is_ready;
use es_wifi::script::{
    close_commands, connect_commands, join_commands, quiet, read_commands, write_commands,
    MAX_READ, MAX_WRITE,
};
use es_wifi::socket::{Mode, Socket, State};
use es_wifi::transport::Transport;
use es_wifi::wire::{Frame, FILLER, NAK};

fn texts(script: &[Vec<u8>]) -> Vec<String> {
    script.iter().map(|c| String::from_utf8_lossy(c).into_owned()).collect()
}

#[test]
fn buffer_starts_empty() {
    let buffer = Buffer::new();
    assert_eq!(buffer.len(), 0);
    assert_eq!(buffer.as_slice(), b"");
}

#[test]
fn buffer_write_takes_nothing_in() {
    let mut buffer = Buffer::new();
    assert_eq!(buffer.write(b"abc"), Ok(&b""[..]));
    assert_eq!(buffer.write(b""), Ok(&b""[..]));
    assert_eq!(buffer.len(), 0);
    let _ = buffer.append(b"xy");
    let long = vec![1u8; BUFFER_SIZE + 1];
    assert_eq!(buffer.write(&long), Ok(&b""[..]));
    assert_eq!(buffer.as_slice(), b"xy");
}

#[test]
fn buffer_appends_what_fits() {
    let mut buffer = Buffer::new();
    assert_eq!(buffer.append(b"abc"), Ok(&b"abc"[..]));
    assert_eq!(buffer.append(b""), Ok(&b"abc"[..]));
    assert_eq!(buffer.append(b"de"), Ok(&b"abcde"[..]));
    assert_eq!(buffer.len(), 5);
    assert_eq!(buffer.as_slice(), b"abcde");
}

#[test]
fn buffer_refuses_what_does_not_fit() {
    let mut buffer = Buffer::new();
    let most = vec![7u8; BUFFER_SIZE - 1];
    assert!(buffer.append(&most).is_ok());
    assert_eq!(buffer.append(b"ab"), Err(()));
    assert_eq!(buffer.len(), BUFFER_SIZE - 1);
    assert!(buffer.append(b"a").is_ok());
    assert_eq!(buffer.len(), BUFFER_SIZE);
    assert_eq!(buffer.append(b"a"), Err(()));
    assert_eq!(buffer.as_slice()[BUFFER_SIZE - 1], b'a');
    let too_much = vec![0u8; BUFFER_SIZE + 1];
    assert_eq!(Buffer::new().append(&too_much), Err(()));
}

#[test]
fn buffer_can_be_cleared() {
    let mut buffer = Buffer::new();
    let _ = buffer.append(b"abc");
    buffer.clear();
    assert_eq!(buffer.len(), 0);
    assert_eq!(buffer.append(b"x"), Ok(&b"x"[..]));
}

#[test]
fn ingress_swaps_and_drops_the_marker() {
    let mut ingress = Ingress::new();
    assert!(ingress.accept(Frame { lead: b'\n', trail: b'\r' }, 16));
    assert!(ingress.accept(Frame { lead: NAK, trail: b'>' }, 16));
    assert_eq!(ingress.as_slice(), b"\r\n>");
    assert_eq!(ingress.len(), 3);
    ingress.clear();
    assert_eq!(ingress.len(), 0);
}

#[test]
fn ingress_keeps_to_its_limit() {
    let mut ingress = Ingress::new();
    assert!(ingress.accept(Frame { lead: b'b', trail: b'a' }, 3));
    assert!(!ingress.accept(Frame { lead: b'd', trail: b'c' }, 3));
    assert_eq!(ingress.as_slice(), b"ab");
    assert!(ingress.accept(Frame { lead: NAK, trail: b'c' }, 3));
    assert!(!ingress.accept(Frame { lead: NAK, trail: b'd' }, 3));
    assert_eq!(ingress.as_slice(), b"abc");
}

#[test]
fn ready_line_reads() {
    assert!(is_ready(Some(true)));
    assert!(!is_ready(Some(false)));
    assert!(!is_ready(None));
}

#[test]
fn sockets_start_closed_and_blocking() {
    let sockets = Socket::create();
    assert_eq!(sockets.len(), 4);
    for socket in sockets.iter() {
        assert_eq!(*socket, Socket { state: State::Closed, mode: Mode::Blocking });
        assert!(socket.is_closed());
        assert!(!socket.is_open());
        assert!(!socket.is_connected());
        assert!(socket.is_blocking());
    }
    assert_eq!(Socket::default(), Socket { state: State::Closed, mode: Mode::Blocking });
}

#[test]
fn socket_states_and_modes() {
    let open = Socket { state: State::Open, mode: Mode::NonBlocking };
    assert!(open.is_open() && !open.is_closed() && !open.is_connected());
    assert!(open.is_non_blocking() && !open.is_blocking() && !open.is_timeout());
    let connected = Socket { state: State::Connected, mode: Mode::Timeout(5) };
    assert!(connected.is_open() && connected.is_connected() && !connected.is_closed());
    assert!(connected.is_timeout());
    let half = Socket { state: State::HalfClosed, mode: Mode::Blocking };
    assert!(!half.is_open() && !half.is_closed() && !half.is_connected());
}

#[test]
fn scripts_spell_their_commands() {
    assert_eq!(
        texts(&join_commands("drogue", "s3cr3t")),
        ["CB=2\r", "C1=drogue\r", "C2=s3cr3t\r", "C3=4\r", "C0\r"]
    );
    let info = ConnectInfo {
        socket_num: 2,
        connection_type: ConnectionType::Udp,
        remote: RemoteAddr { ip: IpAddress::V4([10, 0, 0, 7]), port: 65535 },
    };
    assert_eq!(
        texts(&connect_commands(&info).unwrap()),
        ["P0=2\r", "P1=1\r", "P3=10.0.0.7\r", "P4=65535\r", "P6=1\r"]
    );
    assert_eq!(texts(&close_commands(3)), ["P0=3\r", "P6=0\r"]);
    assert_eq!(
        texts(&write_commands(&WriteInfo { socket_num: 1, data: b"hi" })),
        ["P0=1\r", "S1=2\r", "S0\rhi"]
    );
    assert_eq!(texts(&read_commands(0, 64)), ["P0=0\r", "R1=64\r", "R2=15\r", "R3=1\r", "R0\r\n"]);
    assert_eq!(quiet(), b"MT=1\r");
}

#[test]
fn write_script_is_clamped() {
    assert_eq!(MAX_WRITE, 1046);
    let data = vec![b'z'; 5000];
    let script = write_commands(&WriteInfo { socket_num: 0, data: &data });
    assert_eq!(script[1], b"S1=1046\r");
    assert_eq!(script[2].len(), 3 + 1046);
    assert_eq!(&script[2][..3], b"S0\r");
}

#[test]
fn write_script_of_nothing() {
    let script = write_commands(&WriteInfo { socket_num: 0, data: b"" });
    assert_eq!(texts(&script), ["P0=0\r", "S1=0\r", "S0\r"]);
}

#[test]
fn read_script_is_clamped() {
    assert_eq!(MAX_READ, 1460);
    assert_eq!(read_commands(0, 1460)[1], b"R1=1460\r");
    assert_eq!(read_commands(0, 1461)[1], b"R1=1460\r");
    assert_eq!(read_commands(0, usize::MAX)[1], b"R1=1460\r");
    assert_eq!(read_commands(0, 0)[1], b"R1=0\r");
}

fn script_of(transport: &mut Transport, events: &[Event]) -> (Vec<Action>, Step<Result<(), SpiError>>) {
    let mut actions = Vec::new();
    let mut last = Step::Idle;
    for event in events {
        last = transport.advance(*event);
        if let Step::Do(action) = &last {
            actions.push(*action);
        }
    }
    (actions, last)
}

#[test]
fn exchange_holds_chip_select_around_each_half() {
    let mut transport = Transport::new();
    assert!(transport.is_idle());
    let first = transport.send(b"C0\r");
    assert_eq!(first, Step::Do(Action::SampleReady));
    let events = [
        Event::Ready(Some(false)),
        Event::Ready(Some(true)),
        Event::Done,
        Event::Done,
        Event::Transferred(Some(Frame { lead: 0, trail: 0 })),
        Event::Transferred(Some(Frame { lead: 0, trail: 0 })),
        Event::Done,
        Event::Done,
        Event::Ready(Some(true)),
        Event::Done,
        Event::Done,
        Event::Ready(Some(true)),
        Event::Transferred(Some(Frame { lead: b'\n', trail: b'\r' })),
        Event::Ready(Some(true)),
        Event::Transferred(Some(Frame { lead: NAK, trail: b'>' })),
        Event::Ready(Some(false)),
        Event::Done,
        Event::Done,
    ];
    let (actions, last) = script_of(&mut transport, &events);
    assert_eq!(
        actions,
        [
            Action::SampleReady,
            Action::ChipSelect(Level::Low),
            Action::Delay(10),
            Action::Transfer(Frame { lead: b'0', trail: b'C' }),
            Action::Transfer(Frame { lead: FILLER, trail: b'\r' }),
            Action::ChipSelect(Level::High),
            Action::Delay(10),
            Action::SampleReady,
            Action::ChipSelect(Level::Low),
            Action::Delay(10),
            Action::SampleReady,
            Action::Transfer(Frame { lead: FILLER, trail: FILLER }),
            Action::SampleReady,
            Action::Transfer(Frame { lead: FILLER, trail: FILLER }),
            Action::SampleReady,
            Action::ChipSelect(Level::High),
            Action::Delay(10),
        ]
    );
    assert_eq!(last, Step::Done(Ok(())));
    assert_eq!(transport.reply(), b"\r\n>");
    assert!(transport.is_idle());
    assert_eq!(transport.pending(), None);
    assert_eq!(transport.advance(Event::Done), Step::Idle);
}

#[test]
fn failed_send_releases_chip_select_and_skips_the_reply() {
    let mut transport = Transport::new();
    let _ = transport.send(b"C0\r");
    let events = [
        Event::Ready(Some(true)),
        Event::Done,
        Event::Done,
        Event::Transferred(None),
        Event::Done,
        Event::Done,
    ];
    let (actions, last) = script_of(&mut transport, &events);
    assert_eq!(
        actions,
        [
            Action::ChipSelect(Level::Low),
            Action::Delay(10),
            Action::Transfer(Frame { lead: b'0', trail: b'C' }),
            Action::ChipSelect(Level::High),
            Action::Delay(10),
        ]
    );
    assert_eq!(last, Step::Done(Err(SpiError::WriteError)));
}

#[test]
fn failed_receive_releases_chip_select() {
    let mut transport = Transport::new();
    let _ = transport.receive(16);
    let events = [
        Event::Ready(Some(true)),
        Event::Done,
        Event::Done,
        Event::Ready(Some(true)),
        Event::Transferred(None),
        Event::Done,
        Event::Done,
    ];
    let (actions, last) = script_of(&mut transport, &events);
    assert_eq!(
        actions,
        [
            Action::ChipSelect(Level::Low),
            Action::Delay(10),
            Action::SampleReady,
            Action::Transfer(Frame { lead: FILLER, trail: FILLER }),
            Action::ChipSelect(Level::High),
            Action::Delay(10),
        ]
    );
    assert_eq!(last, Step::Done(Err(SpiError::ReadError)));
}

#[test]
fn receive_stops_at_its_limit() {
    let mut transport = Transport::new();
    let _ = transport.receive(2);
    let events = [
        Event::Ready(Some(true)),
        Event::Done,
        Event::Done,
        Event::Ready(Some(true)),
        Event::Transferred(Some(Frame { lead: b'b', trail: b'a' })),
        Event::Ready(Some(true)),
        Event::Done,
        Event::Done,
    ];
    let (actions, last) = script_of(&mut transport, &events);
    assert_eq!(actions.last(), Some(&Action::Delay(10)));
    assert_eq!(actions[actions.len() - 2], Action::ChipSelect(Level::High));
    assert_eq!(last, Step::Done(Err(SpiError::ReadError)));
    assert_eq!(transport.reply(), b"ab");
}

#[test]
fn arbiter_connects_over_udp() {
    let mut arbiter = Arbiter::with_policy(Unready::Fail);
    assert!(arbiter.is_idle());
    assert!(!arbiter.is_ready());
    let remote = RemoteAddr { ip: IpAddress::V4([1, 2, 3, 4]), port: 53 };
    assert_eq!(
        arbiter.connect(IpProtocol::Udp, 1, remote),
        Step::Done(Outcome::Connect(Err(ConnectError::ConnectionFailed)))
    );
    let mut arbiter = Arbiter::new();
    assert_eq!(arbiter.connect(IpProtocol::Udp, 1, remote), Step::Do(Action::Wake(Level::Low)));
    assert_eq!(arbiter.pending(), Some(Action::Wake(Level::Low)));
    assert_eq!(arbiter.advance(Event::Done), Step::Do(Action::Reset(Level::Low)));
    assert_eq!(arbiter.data(), b"");
}

#[test]
fn outcome_is_taken_for_its_own_kind() {
    assert_eq!(Outcome::Write(Ok(3)).write(), Ok(3));
    assert_eq!(Outcome::Read(Ok(3)).read(), Ok(3));
    assert_eq!(Outcome::Join(Ok(())).join(), Ok(()));
    assert_eq!(Outcome::Connect(Ok(())).connect(), Ok(()));
    assert_eq!(Outcome::Close(Ok(())).close(), Ok(()));
    assert_eq!(Outcome::Initialize(Ok(())).initialize(), Ok(()));
    assert!(Outcome::Join(Ok(())).write().is_err());
    assert!(Outcome::Write(Ok(1)).read().is_err());
    assert!(Outcome::Write(Ok(1)).join().is_err());
    assert!(Outcome::Write(Ok(1)).connect().is_err());
    assert!(Outcome::Write(Ok(1)).close().is_err());
    assert!(Outcome::Write(Ok(1)).initialize().is_err());
}

#[test]
fn ipv6_peer_is_written_as_the_outside_crate_writes_it() {
    let mut ip = [0u8; 16];
    ip[15] = 1;
    let info = ConnectInfo {
        socket_num: 0,
        connection_type: ConnectionType::Tcp,
        remote: RemoteAddr { ip: IpAddress::V6(ip), port: 80 },
    };
    assert_eq!(
        texts(&connect_commands(&info).unwrap()),
        ["P0=0\r", "P1=0\r", "P3=::1\r", "P4=80\r", "P6=1\r"]
    );
    let full = [0x20, 0x01, 0x0d, 0xb8, 0x85, 0xa3, 0x12, 0x34, 0x56, 0x78, 0x8a, 0x2e, 0x03, 0x70, 0x73, 0x34];
    let command = Command::with_v6_address(Opcode::RemoteIp, &full).unwrap();
    assert_eq!(command.as_bytes(), b"P3=2001:db8:85a3:1234:5678:8a2e:370:7334\r");
}

#[test]
fn command_value_must_be_ascii_and_fit() {
    assert_eq!(Command::with_value(Opcode::Ssid, b"abc").unwrap().as_bytes(), b"C1=abc\r");
    assert!(Command::with_value(Opcode::Ssid, &[b'a', 0x80]).is_none());
    assert!(Command::with_value(Opcode::Ssid, &vec![b'a'; MAX_VALUE]).is_some());
    assert!(Command::with_value(Opcode::Ssid, &vec![b'a'; MAX_VALUE + 1]).is_none());
}

#[test]
fn ssid_holds_up_to_thirty_two_bytes_of_text() {
    assert_eq!(Ssid::from_utf8(b"myssid").unwrap().as_bytes(), b"myssid");
    assert_eq!(Ssid::from_utf8(b"").unwrap().as_bytes(), b"");
    let longest = vec![b'x'; 32];
    assert_eq!(Ssid::from_utf8(&longest).unwrap().as_bytes(), &longest[..]);
    assert!(Ssid::from_utf8(&vec![b'x'; 33]).is_none());
    assert_eq!(Ssid::from_utf8(&[b'a', 0xC3, 0xA9]).unwrap().as_bytes(), "a\u{e9}".as_bytes());
    assert!(Ssid::from_utf8(&[b'a', 0xE9]).is_none());
    assert!(Ssid::from_utf8(&[0xC3]).is_none());
    assert!(Ssid::from_utf8(&[0x7F]).is_some());
    let wide = "\u{e9}".repeat(16);
    assert_eq!(Ssid::from_utf8(wide.as_bytes()).unwrap().as_bytes(), wide.as_bytes());
    let wider = "\u{e9}".repeat(17);
    assert!(Ssid::from_utf8(wider.as_bytes()).is_none());
}
