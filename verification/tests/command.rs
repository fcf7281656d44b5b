use es_wifi::command::{Command, Opcode, CAPACITY, MAX_VALUE};

#[test]
fn bare_command_is_opcode_and_carriage_return() {
    assert_eq!(Command::bare(Opcode::Associate).as_bytes(), b"C0\r");
    assert_eq!(Command::bare(Opcode::WriteStart).as_bytes(), b"S0\r");
    assert_eq!(Command::bare(Opcode::ReadStart).as_bytes(), b"R0\r");
}

#[test]
fn number_is_written_in_decimal() {
    assert_eq!(Command::with_number(Opcode::SecurityMode, 2).as_bytes(), b"CB=2\r");
    assert_eq!(Command::with_number(Opcode::SecurityLevel, 4).as_bytes(), b"C3=4\r");
    assert_eq!(Command::with_number(Opcode::Socket, 3).as_bytes(), b"P0=3\r");
    assert_eq!(Command::with_number(Opcode::Protocol, 0).as_bytes(), b"P1=0\r");
    assert_eq!(Command::with_number(Opcode::RemotePort, 8080).as_bytes(), b"P4=8080\r");
    assert_eq!(Command::with_number(Opcode::Client, 1).as_bytes(), b"P6=1\r");
    assert_eq!(Command::with_number(Opcode::WriteLength, 1046).as_bytes(), b"S1=1046\r");
    assert_eq!(Command::with_number(Opcode::ReadLength, 1460).as_bytes(), b"R1=1460\r");
    assert_eq!(Command::with_number(Opcode::ReadTimeout, 15).as_bytes(), b"R2=15\r");
    assert_eq!(Command::with_number(Opcode::ReadPagination, 1).as_bytes(), b"R3=1\r");
    assert_eq!(Command::with_number(Opcode::Verbosity, 1).as_bytes(), b"MT=1\r");
}

#[test]
fn largest_number_fits() {
    let command = Command::with_number(Opcode::Socket, usize::MAX);
    assert_eq!(command.as_bytes(), format!("P0={}\r", usize::MAX).as_bytes());
}

#[test]
fn text_is_taken_as_it_is() {
    assert_eq!(Command::with_text(Opcode::Ssid, "drogue").as_bytes(), b"C1=drogue\r");
    assert_eq!(Command::with_text(Opcode::Passphrase, "s3cr3t pass").as_bytes(), b"C2=s3cr3t pass\r");
    assert_eq!(Command::with_text(Opcode::Ssid, "").as_bytes(), b"C1=\r");
}

#[test]
fn text_that_is_not_ascii_keeps_its_bytes() {
    let command = Command::with_text(Opcode::Ssid, "caf\u{e9}");
    assert_eq!(command.as_bytes(), "C1=caf\u{e9}\r".as_bytes());
}

#[test]
fn longest_value_fills_the_command() {
    assert_eq!(MAX_VALUE + 4, CAPACITY);
    let value = "x".repeat(MAX_VALUE);
    let command = Command::with_text(Opcode::Passphrase, &value);
    assert_eq!(command.as_bytes().len(), CAPACITY);
    assert_eq!(command.as_bytes(), format!("C2={}\r", value).as_bytes());
}

#[test]
fn address_is_dotted_decimal() {
    assert_eq!(
        Command::with_address(Opcode::RemoteIp, 192, 168, 1, 174).as_bytes(),
        b"P3=192.168.1.174\r"
    );
    assert_eq!(Command::with_address(Opcode::RemoteIp, 0, 0, 0, 0).as_bytes(), b"P3=0.0.0.0\r");
    assert_eq!(
        Command::with_address(Opcode::RemoteIp, 255, 255, 255, 255).as_bytes(),
        b"P3=255.255.255.255\r"
    );
}

#[test]
fn opcodes_have_their_letters() {
    assert_eq!(Opcode::SecurityMode.code(), (b'C', b'B'));
    assert_eq!(Opcode::Ssid.code(), (b'C', b'1'));
    assert_eq!(Opcode::Passphrase.code(), (b'C', b'2'));
    assert_eq!(Opcode::SecurityLevel.code(), (b'C', b'3'));
    assert_eq!(Opcode::Associate.code(), (b'C', b'0'));
    assert_eq!(Opcode::Socket.code(), (b'P', b'0'));
    assert_eq!(Opcode::Protocol.code(), (b'P', b'1'));
    assert_eq!(Opcode::RemoteIp.code(), (b'P', b'3'));
    assert_eq!(Opcode::RemotePort.code(), (b'P', b'4'));
    assert_eq!(Opcode::Client.code(), (b'P', b'6'));
    assert_eq!(Opcode::WriteLength.code(), (b'S', b'1'));
    assert_eq!(Opcode::WriteStart.code(), (b'S', b'0'));
    assert_eq!(Opcode::ReadLength.code(), (b'R', b'1'));
    assert_eq!(Opcode::ReadTimeout.code(), (b'R', b'2'));
    assert_eq!(Opcode::ReadPagination.code(), (b'R', b'3'));
    assert_eq!(Opcode::ReadStart.code(), (b'R', b'0'));
    assert_eq!(Opcode::Verbosity.code(), (b'M', b'T'));
}
