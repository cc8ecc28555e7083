use vigenere_udp::networking_util::{
    check_valid_ip, client_arg_validation, find_address, first_routable_v4, parse_port,
    server_arg_validation, socket_endpoint, AddressFamily, IoFailure, IpAddress,
};

#[test]
fn check_valid_ip_cases() {
    assert_eq!(check_valid_ip(&None), Err("Invalid IP address".to_string()));
    let refused = Err("IP address not allowed for use".to_string());
    assert_eq!(check_valid_ip(&Some(IpAddress::V4([224, 0, 0, 1]))), refused);
    assert_eq!(check_valid_ip(&Some(IpAddress::V4([239, 255, 255, 255]))), refused);
    assert_eq!(check_valid_ip(&Some(IpAddress::V4([0, 0, 0, 0]))), refused);
    assert_eq!(check_valid_ip(&Some(IpAddress::V6([0; 8]))), refused);
    assert_eq!(check_valid_ip(&Some(IpAddress::V6([0xff02, 0, 0, 0, 0, 0, 0, 1]))), refused);
    assert_eq!(check_valid_ip(&Some(IpAddress::V4([127, 0, 0, 1]))), Ok(()));
    assert_eq!(check_valid_ip(&Some(IpAddress::V4([223, 255, 255, 255]))), Ok(()));
    assert_eq!(check_valid_ip(&Some(IpAddress::V4([240, 0, 0, 1]))), Ok(()));
    assert_eq!(check_valid_ip(&Some(IpAddress::V6([0, 0, 0, 0, 0, 0, 0, 1]))), Ok(()));
    assert_eq!(check_valid_ip(&Some(IpAddress::V6([0xfe80, 0, 0, 0, 0, 0, 0, 1]))), Ok(()));
}

#[test]
fn parse_port_follows_u16_parsing() {
    for s in ["0", "80", "+80", "007", "65535", "8080"] {
        assert_eq!(parse_port(s), Ok(s.parse::<u16>().unwrap()));
    }
    for s in ["", "+", "-1", "65536", "8a", " 80", "80 ", "++1", "99999999999"] {
        assert_eq!(parse_port(s), Err("[SERVER] Invalid port".to_string()), "{:?}", s);
        assert!(s.parse::<u16>().is_err());
    }
}

#[test]
fn argument_counts() {
    let args = |n: usize| (0..n).map(|i| i.to_string()).collect::<Vec<String>>();
    assert_eq!(client_arg_validation(&args(5)), Ok(()));
    assert_eq!(
        client_arg_validation(&args(4)),
        Err("[CLIENT] Usage: <target-ip> <target-port> <timeout> <max-retries>".to_string())
    );
    assert_eq!(server_arg_validation(&args(3)), Ok(()));
    assert_eq!(server_arg_validation(&args(5)), Err("Usage: <listen-ip> <listen-port>".to_string()));
}

#[test]
fn endpoints_follow_the_address_family() {
    let e = socket_endpoint(IpAddress::V4([10, 0, 0, 1]), 9000);
    assert!(matches!(e.family, AddressFamily::Ipv4));
    assert_eq!(e.port, 9000);
    let e = socket_endpoint(IpAddress::V6([0, 0, 0, 0, 0, 0, 0, 1]), 1);
    assert!(matches!(e.family, AddressFamily::Ipv6));
    assert_eq!((e.flowinfo, e.scope_id), (0, 0));
}

#[test]
fn find_address_skips_loopback_and_ipv6() {
    let ifs = vec![
        IpAddress::V4([127, 0, 0, 1]),
        IpAddress::V6([0xfe80, 0, 0, 0, 0, 0, 0, 1]),
        IpAddress::V4([192, 168, 1, 5]),
        IpAddress::V4([10, 0, 0, 2]),
    ];
    assert_eq!(first_routable_v4(&ifs), Some(2));
    assert_eq!(find_address(&ifs), Some([192, 168, 1, 5]));
    assert_eq!(find_address(&vec![IpAddress::V4([127, 1, 2, 3])]), None);
    assert_eq!(find_address(&vec![]), None);
}

#[test]
fn failure_reports() {
    assert_eq!(IoFailure::ClientSocketCreation.describe(), "[CLIENT] Socket Creation Error");
    assert_eq!(IoFailure::ClientConnect.describe(), "[CLIENT] Error Connecting to Server");
    assert_eq!(IoFailure::ClientSend.describe(), "[CLIENT] could not send message");
    assert_eq!(IoFailure::ClientSerialize.describe(), "[CLIENT] could not serialize message");
    assert_eq!(IoFailure::NoAck.describe(), "[CLIENT] Did not receive ACK. Continuing Program");
    assert_eq!(
        IoFailure::ServerSocketCreation("no fd".to_string()).describe(),
        "[SERVER] Socket creation failed: no fd"
    );
    assert_eq!(IoFailure::ServerBind("in use".to_string()).describe(), "[SERVER] Bind failed: in use");
    assert_eq!(
        IoFailure::ServerAckSend("unreachable".to_string()).describe(),
        "[SERVER] Failed to send ACK: unreachable"
    );
    assert_eq!(
        IoFailure::ProxyClientBind("x".to_string()).describe(),
        "[PROXY] Error binding proxy socket for client: x"
    );
    assert_eq!(
        IoFailure::ProxyServerBind("y".to_string()).describe(),
        "[PROXY] Error binding proxy socket for server: y"
    );
    assert_eq!(
        IoFailure::ProxyServerConnect("refused".to_string()).describe(),
        "[PROXY] Could not connect to server: refused"
    );
}
