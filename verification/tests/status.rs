use tm20::status::{Status, StatusRequest, encode_request, parse_status};

#[test]
fn request_bytes() {
    assert_eq!(encode_request(StatusRequest::Printer), vec![0x10, 0x04, 1]);
    assert_eq!(
        encode_request(StatusRequest::RollPaper),
        vec![0x10, 0x04, 4]
    );
}

#[test]
fn parse_printer() {
    let Status::Printer(s) = parse_status(StatusRequest::Printer, 0b0001_1010).unwrap() else {
        panic!("wrong variant");
    };
    assert!(s.drawer_kick_pin3_low);
    assert!(!s.online);
    assert!(!s.waiting_for_online_recovery);
    assert!(!s.paper_feed_button_pressed);
}

#[test]
fn parse_offline() {
    let Status::OfflineCause(s) =
        parse_status(StatusRequest::OfflineCause, 0b0101_1110).unwrap()
    else {
        panic!("wrong variant");
    };
    assert!(!s.cover_closed);
    assert!(s.paper_fed_by_button);
    assert!(!s.printing_stopped_paper_end);
    assert!(s.error_occurred);
}

#[test]
fn parse_error_cause() {
    let Status::ErrorCause(s) = parse_status(StatusRequest::ErrorCause, 0b0001_1010).unwrap()
    else {
        panic!("wrong variant");
    };
    assert!(!s.recoverable);
    assert!(s.autocutter);
    assert!(!s.unrecoverable);
    assert!(!s.auto_recoverable);
}

#[test]
fn parse_roll_paper() {
    let Status::RollPaper(s) = parse_status(StatusRequest::RollPaper, 0b0001_0010).unwrap()
    else {
        panic!("wrong variant");
    };
    assert!(s.near_end_adequate);
    assert!(s.paper_present);
}

#[test]
fn bad_pattern() {
    assert!(parse_status(StatusRequest::Printer, 0).is_err());
}
