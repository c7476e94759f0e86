use std::io::{BufRead, Error as IOError, ErrorKind as IOErrorKind, Result as IOResult};
use trap_relay::address::TransportAddress;
use trap_relay::trap::{parse_trap, read_trap, MalformedInput, Timestamp, VarBind};

fn lines_of(text: &str) -> Vec<String> {
    text.lines().map(|line| line.to_string()).collect()
}

fn binding(oid: &str, value: &str) -> VarBind {
    VarBind { oid: oid.to_string(), value: value.to_string() }
}

#[test]
fn test_read_trap_ok() -> IOResult<()> {
    let buffer = b"localhost
        UDP: [127.0.0.1]:42935->[127.0.0.1]:162
        DISMAN-EVENT-MIB::sysUpTimeInstance 1:5:47:16.76
        SNMPv2-MIB::snmpTrapOID.0 NET-SNMP-EXAMPLES-MIB::netSnmpExampleHeartbeatNotification
        NET-SNMP-EXAMPLES-MIB::netSnmpExampleHeartbeatRate 123456" as &[u8];

    let lines = buffer.lines().collect::<IOResult<Vec<String>>>()?;
    let trap = read_trap(&lines)
        .map_err(|error| IOError::new(IOErrorKind::InvalidData, error.message()))?;

    assert_eq!(trap.remote_hostname, "localhost");
    assert_eq!(
        trap.transport_address,
        TransportAddress {
            protocol: "UDP".to_string(),
            remote_address: "[127.0.0.1]:42935".to_string(),
            local_address: "[127.0.0.1]:162".to_string(),
        },
    );
    assert_eq!(
        trap.varbinds,
        [
            VarBind {
                oid: "DISMAN-EVENT-MIB::sysUpTimeInstance".to_string(),
                value: "1:5:47:16.76".to_string(),
            },
            VarBind {
                oid: "SNMPv2-MIB::snmpTrapOID.0".to_string(),
                value: "NET-SNMP-EXAMPLES-MIB::netSnmpExampleHeartbeatNotification".to_string(),
            },
            VarBind {
                oid: "NET-SNMP-EXAMPLES-MIB::netSnmpExampleHeartbeatRate".to_string(),
                value: "123456".to_string(),
            },
        ]
    );

    Ok(())
}

#[test]
#[should_panic]
fn test_read_trap_malformed_input() {
    let buffer = b"Hello world" as &[u8];
    let lines = buffer.lines().collect::<IOResult<Vec<String>>>().unwrap();
    match read_trap(&lines) {
        Err(err) => panic!("{}", err.message()),
        Ok(_) => (),
    };
}

#[test]
fn a_single_line_is_malformed_input() {
    assert_eq!(read_trap(&lines_of("Hello world")), Err(MalformedInput::TransportAddress));
}

#[test]
fn no_line_at_all_is_a_missing_hostname() {
    assert_eq!(read_trap(&[]), Err(MalformedInput::MissingHostname));
    assert_eq!(
        parse_trap(&[], Timestamp { seconds: 0, nanoseconds: 0 }),
        Err(MalformedInput::MissingHostname)
    );
}

#[test]
fn a_second_line_of_another_shape_is_malformed_input() {
    assert_eq!(
        read_trap(&lines_of("localhost\nHello world\nsome.oid value")),
        Err(MalformedInput::TransportAddress)
    );
}

#[test]
fn a_second_line_without_the_arrow_is_malformed_input() {
    assert_eq!(
        read_trap(&lines_of("localhost\nUDP: [10.0.0.1]:161 [10.0.0.2]:162")),
        Err(MalformedInput::TransportAddress)
    );
}

#[test]
fn endpoints_without_ports_are_read() {
    let trap = read_trap(&lines_of("router\nUDP: [10.0.0.1]->[10.0.0.2]")).unwrap();
    assert_eq!(trap.remote_hostname, "router");
    assert_eq!(trap.transport_address.protocol, "UDP");
    assert_eq!(trap.transport_address.remote_address, "[10.0.0.1]");
    assert_eq!(trap.transport_address.local_address, "[10.0.0.2]");
    assert_eq!(trap.varbinds, Vec::<VarBind>::new());
}

#[test]
fn a_line_with_one_token_is_passed_over() {
    let trap = read_trap(&lines_of(
        "localhost\nUDP: [127.0.0.1]:1->[127.0.0.1]:162\nfirst.oid 1\nalone\nsecond.oid 2",
    ))
    .unwrap();
    assert_eq!(trap.varbinds, vec![binding("first.oid", "1"), binding("second.oid", "2")]);
}

#[test]
fn blank_lines_are_passed_over() {
    let trap = read_trap(&lines_of(
        "localhost\nUDP: [127.0.0.1]:1->[127.0.0.1]:162\n\nfirst.oid 1\n   \t\nsecond.oid 2\n\n",
    ))
    .unwrap();
    assert_eq!(trap.varbinds, vec![binding("first.oid", "1"), binding("second.oid", "2")]);
}

#[test]
fn tokens_after_the_second_are_dropped() {
    let trap = read_trap(&lines_of(
        "localhost\nUDP: [127.0.0.1]:1->[127.0.0.1]:162\nsysDescr.0 Linux router 5.10",
    ))
    .unwrap();
    assert_eq!(trap.varbinds, vec![binding("sysDescr.0", "Linux")]);
}

#[test]
fn bindings_keep_their_order_and_their_duplicates() {
    let trap = read_trap(&lines_of(
        "localhost\nUDP: [127.0.0.1]:1->[127.0.0.1]:162\nb 2\na 1\nb 2\na 3",
    ))
    .unwrap();
    assert_eq!(
        trap.varbinds,
        vec![binding("b", "2"), binding("a", "1"), binding("b", "2"), binding("a", "3")]
    );
}

#[test]
fn the_header_lines_are_trimmed() {
    let trap =
        read_trap(&lines_of("  host.example \t\n\t UDP: [127.0.0.1]:1->[127.0.0.1]:162  "))
            .unwrap();
    assert_eq!(trap.remote_hostname, "host.example");
    assert_eq!(trap.transport_address.protocol, "UDP");
    assert_eq!(trap.transport_address.local_address, "[127.0.0.1]:162");
}

#[test]
fn an_empty_first_line_gives_an_empty_hostname() {
    let trap = read_trap(&lines_of("\nUDP: [127.0.0.1]:1->[127.0.0.1]:162")).unwrap();
    assert_eq!(trap.remote_hostname, "");
}

#[test]
fn varbind_parse_takes_the_first_two_tokens() {
    assert_eq!(VarBind::parse("  oid   value  rest"), Some(binding("oid", "value")));
    assert_eq!(VarBind::parse("oid\tvalue"), Some(binding("oid", "value")));
    assert_eq!(VarBind::parse("oid"), None);
    assert_eq!(VarBind::parse(""), None);
}

#[test]
fn parse_trap_stamps_the_given_time() {
    let stamp = Timestamp { seconds: 1_600_000_000, nanoseconds: 123_456_789 };
    let trap =
        parse_trap(&lines_of("localhost\nUDP: [127.0.0.1]:1->[127.0.0.1]:162\na 1"), stamp)
            .unwrap();
    assert_eq!(trap.timestamp, stamp);
    assert_eq!(trap.remote_hostname, "localhost");
    assert_eq!(trap.varbinds, vec![binding("a", "1")]);
}

#[test]
fn parse_trap_is_the_same_for_the_same_lines() {
    let stamp = Timestamp { seconds: 7, nanoseconds: 9 };
    let lines = lines_of("localhost\nUDP: [127.0.0.1]:1->[127.0.0.1]:162\na 1\nb\nc 3 4");
    assert_eq!(parse_trap(&lines, stamp), parse_trap(&lines, stamp));
}

#[test]
fn read_trap_stamps_the_time_of_reading() {
    let trap = read_trap(&lines_of("localhost\nUDP: [127.0.0.1]:1->[127.0.0.1]:162")).unwrap();
    assert!(trap.timestamp.seconds > 1_600_000_000);
    assert!(trap.timestamp.nanoseconds < 2_000_000_000);
    let later = read_trap(&lines_of("localhost\nUDP: [127.0.0.1]:1->[127.0.0.1]:162")).unwrap();
    assert!(later.timestamp.seconds >= trap.timestamp.seconds);
}

#[test]
fn malformed_input_messages() {
    assert_eq!(MalformedInput::MissingHostname.message(), "Malformed input: missing hostname");
    assert_eq!(
        MalformedInput::TransportAddress.message(),
        "Malformed input: missing or unparseable transport address"
    );
}

#[test]
fn a_copy_of_a_message_holds_the_same() {
    let stamp = Timestamp { seconds: 1_600_000_000, nanoseconds: 5 };
    let trap = parse_trap(
        &lines_of("localhost\nUDP: [127.0.0.1]:1->[127.0.0.1]:162\na 1\nb 2\nc 3"),
        stamp,
    )
    .unwrap();
    let copy = trap.clone();
    assert_eq!(copy, trap);
    assert_eq!(copy.varbinds.len(), 3);
    assert_eq!(copy.transport_address.clone(), trap.transport_address);
}

#[test]
fn a_second_line_with_more_than_the_address_is_malformed_input() {
    assert_eq!(
        read_trap(&lines_of("localhost\nUDP: [10.0.0.1]:161->[10.0.0.2]:162 and more\na 1")),
        Err(MalformedInput::TransportAddress)
    );
    assert_eq!(
        read_trap(&lines_of("localhost\nUDP: [10.0.0.1]:161->[10.0.0.2]:port")),
        Err(MalformedInput::TransportAddress)
    );
}

#[test]
fn the_second_line_is_the_address_written_out() {
    let trap =
        read_trap(&lines_of("localhost\n  UDP: [10.0.0.1]:161->[10.0.0.2]:162 \t\na 1")).unwrap();
    assert_eq!(trap.transport_address.line(), "UDP: [10.0.0.1]:161->[10.0.0.2]:162");
}
