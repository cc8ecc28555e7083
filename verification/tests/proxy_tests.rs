use vigenere_udp::networking_util::IpAddress;
use vigenere_udp::proxy_util::{
    chance, plan_from_rolls, plan_packet, random_delay, roll_outcome, socket_address_text,
    validate_proxy_args, PacketPlan,
};

#[test]
fn roll_outcomes() {
    assert!(roll_outcome(0, 0));
    assert!(!roll_outcome(0, 1));
    assert!(roll_outcome(50, 50));
    assert!(!roll_outcome(49, 50));
    assert!(!roll_outcome(99, 100));
}

#[test]
fn chance_extremes() {
    for _ in 0..200 {
        assert!(chance(0));
        assert!(!chance(100));
        assert!(!chance(u32::MAX));
    }
}

#[test]
fn random_delay_stays_in_range() {
    for _ in 0..200 {
        let d = random_delay(10, 20);
        assert!((10..=20).contains(&d));
    }
    assert_eq!(random_delay(7, 7), 7);
}

#[test]
fn random_delay_varies() {
    let draws: Vec<u32> = (0..200).map(|_| random_delay(10, 20)).collect();
    assert!(draws.iter().any(|&d| d != draws[0]));
}

#[test]
fn plan_from_rolls_cases() {
    assert!(matches!(plan_from_rolls(10, 0, 5, 50, 0), PacketPlan::Drop));
    assert!(matches!(plan_from_rolls(60, 90, 5, 50, 50), PacketPlan::Forward));
    assert!(matches!(plan_from_rolls(60, 10, 5, 50, 50), PacketPlan::ForwardAfter(5)));
}

#[test]
fn plan_packet_extremes() {
    for _ in 0..200 {
        assert!(matches!(plan_packet(0, 0, 9, 1), PacketPlan::Forward));
        assert!(matches!(plan_packet(100, 100, 1, 2), PacketPlan::Drop));
        assert!(matches!(plan_packet(100, 50, 9, 1), PacketPlan::Drop));
        assert!(matches!(plan_packet(0, 0, 9, 1), PacketPlan::Forward));
        assert!(matches!(plan_packet(0, 100, 9, 1), PacketPlan::DelayRangeEmpty));
        match plan_packet(0, 100, 30, 40) {
            PacketPlan::ForwardAfter(d) => assert!((30..=40).contains(&d)),
            _ => panic!("a sure delay"),
        }
    }
}

#[test]
fn proxy_address_checks() {
    let ok = Some(IpAddress::V4([127, 0, 0, 1]));
    assert_eq!(validate_proxy_args(&ok, &ok), Ok(()));
    assert_eq!(
        validate_proxy_args(&None, &ok),
        Err("[PROXY] Ip address error: Invalid IP address".to_string())
    );
    assert_eq!(
        validate_proxy_args(&ok, &Some(IpAddress::V4([0, 0, 0, 0]))),
        Err("[PROXY] Ip address error: IP address not allowed for use".to_string())
    );
    assert_eq!(socket_address_text("127.0.0.1", "8080"), "127.0.0.1:8080");
}
