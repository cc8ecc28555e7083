use vigenere_udp::client_util::{client_input_message, AckAction, AckWait};

#[test]
fn silent_server_gets_exactly_retries_resends() {
    let mut w = AckWait::new(3, 5);
    let mut resends = vec![];
    while w.attempts_left() {
        match w.record(None) {
            AckAction::Resend(n, pause) => {
                assert_eq!(pause, 5);
                resends.push(n)
            },
            AckAction::Acknowledged(_) => panic!("no answer was given"),
        }
    }
    assert_eq!(resends, vec![0, 1, 2]);
    assert_eq!(w.outcome(), Err("[CLIENT] Did not receive ACK. Continuing Program".to_string()));
}

#[test]
fn no_retries_means_no_poll() {
    assert!(!AckWait::new(0, 2).attempts_left());
    assert!(!AckWait::new(-4, 2).attempts_left());
    assert!(AckWait::new(-4, 2).outcome().is_err());
}

#[test]
fn answer_ends_the_wait() {
    let mut w = AckWait::new(5, 9);
    assert_eq!(w.first_pause_secs(), 1);
    assert!(matches!(w.record(None), AckAction::Resend(0, 9)));
    assert!(matches!(w.record(Some(17)), AckAction::Acknowledged(17)));
    assert!(!w.attempts_left());
    assert_eq!(w.outcome(), Ok(()));
}

#[test]
fn empty_line_is_skipped() {
    assert!(client_input_message(0, "\n".to_string()).is_none());
    let m = client_input_message(4, "hi\n".to_string()).unwrap();
    assert_eq!((m.seq_number, m.message.as_str()), (4, "hi\n"));
    assert!(client_input_message(1, "".to_string()).is_some());
}
