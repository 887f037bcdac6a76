use wcgate::envelope::{describe_failure, Envelope};

#[test]
fn success_envelope_shape() {
    let e = Envelope::ok(true);
    assert_eq!(e.status, 0);
    assert!(e.error.is_none());
    assert_eq!(e.data, Some(true));
}

#[test]
fn failure_envelope_shape() {
    let e: Envelope<bool> = Envelope::fail(String::from("backend unreachable"));
    assert_ne!(e.status, 0);
    assert_eq!(e.error, Some(String::from("backend unreachable")));
    assert!(e.data.is_none());
}

#[test]
fn of_result_wraps_ok_unchanged() {
    let e = Envelope::of_result(Ok(String::from("wxid_123")));
    assert_eq!(e.status, 0);
    assert!(e.error.is_none());
    assert_eq!(e.data, Some(String::from("wxid_123")));
}

#[test]
fn of_result_wraps_err_unchanged() {
    let e: Envelope<u64> = Envelope::of_result(Err(String::from("rpc fault")));
    assert_eq!(e.status, 1);
    assert_eq!(e.error, Some(String::from("rpc fault")));
    assert!(e.data.is_none());
}

#[test]
fn repeated_results_give_equal_envelopes() {
    let first = Envelope::of_result(Ok(vec![1u8, 2, 3]));
    let second = Envelope::of_result(Ok(vec![1u8, 2, 3]));
    assert_eq!(first, second);
    let e1: Envelope<bool> = Envelope::of_result(Err(String::from("same fault")));
    let e2: Envelope<bool> = Envelope::of_result(Err(String::from("same fault")));
    assert_eq!(e1, e2);
}

#[test]
fn failure_message_format() {
    let m = describe_failure("send text", "socket closed");
    assert_eq!(m, "send text failed: socket closed");
}
