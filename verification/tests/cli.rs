use tm20::cli::{
    Command, Mode, PROCESS_ID, Parsed, deliver, info_request_list, parse, planned_id_bytes,
    planned_status_bytes, run, wait_done,
};
use tm20::identify::{encode_info, encode_process_id};
use tm20::status::{StatusRequest, encode_request};
use tm20::{Error, FramingError, Memory, ReplyReader, encode, hello};

fn parse_ok(args: &[&str]) -> Parsed {
    parse(args).unwrap_or_else(|e| panic!("parse {args:?}: {}", e.message()))
}

fn parse_err(args: &[&str]) -> String {
    parse(args).unwrap_err().message()
}

#[test]
fn leading_options_and_known_spellings() {
    let p = parse_ok(&["--serial", "S", "--dry", "--wait", "hello"]);
    assert_eq!(p.mode, Mode::Dry { wait: true });
    assert_eq!(p.command, Command::Hello);
    assert_eq!(parse_ok(&["text"]).command, Command::Text(String::new()));
    assert_eq!(
        parse_ok(&["text", "hi"]).command,
        Command::Text("hi".into())
    );
    assert_eq!(parse_ok(&["test"]).command, Command::TestList);
    assert_eq!(parse_ok(&["test", "all"]).command, Command::TestAll);
    assert_eq!(parse_ok(&["qr", "x"]).command, Command::Qr("x".into()));
}

#[test]
fn unknown_options_and_extra_positionals_are_rejected() {
    assert!(parse_err(&["--foo", "hello"]).contains("unknown option --foo"));
    assert!(parse_err(&["hello", "x"]).contains("unexpected argument x"));
    assert!(parse_err(&["status", "x"]).contains("unexpected argument x"));
    assert!(parse_err(&["test", "all", "x"]).contains("unexpected argument x"));
    assert!(parse_err(&["text", "a", "b"]).contains("unexpected argument b"));
    assert!(parse_err(&["qr"]).contains("qr needs data"));
    assert!(parse_err(&[]).contains("unknown command"));
    assert!(parse_err(&["nope"]).contains("unknown command nope"));
    assert!(parse_err(&["--serial"]).contains("--serial needs a value"));
}

#[test]
fn dry_status_and_id_are_the_planned_request_bytes() {
    assert_eq!(
        planned_status_bytes(),
        [
            encode_request(StatusRequest::Printer),
            encode_request(StatusRequest::OfflineCause),
            encode_request(StatusRequest::ErrorCause),
            encode_request(StatusRequest::RollPaper),
        ]
        .concat()
    );
    assert_eq!(
        planned_id_bytes(),
        info_request_list()
            .iter()
            .flat_map(|r| encode_info(*r))
            .collect::<Vec<_>>()
    );
    assert!(!planned_status_bytes().is_empty());
    assert!(!planned_id_bytes().is_empty());
}

#[test]
fn dry_debug_and_list_are_not_applicable() {
    let err = run(&["--dry", "debug"]).unwrap_err();
    assert!(err.message().contains("dry-run is not applicable to debug"));
    let err = run(&["--dry", "list"]).unwrap_err();
    assert!(err.message().contains("dry-run is not applicable to list"));
}

#[test]
fn dry_hello_does_not_touch_memory() {
    let before = Memory::new();
    assert!(before.written.is_empty());
    run(&["--dry", "hello"]).unwrap();
    run(&["--dry", "--wait", "hello"]).unwrap();
    run(&["--dry", "status"]).unwrap();
    run(&["--dry", "id"]).unwrap();
    run(&["--dry", "test"]).unwrap();
}

#[test]
fn wait_done_rejects_wrong_id_through_production_helper() {
    let reply = [0x37, 0x22, b'x', b'x', b'x', b'x', 0];
    let mut reader = ReplyReader::new(Memory::with_replies(reply.to_vec()));
    match wait_done(&mut reader) {
        Err(Error::Framing(FramingError::WrongId {
            requested,
            got: [b'x', b'x', b'x', b'x'],
        })) if requested == PROCESS_ID => {}
        other => panic!("expected WrongId, got {other:?}"),
    }
    assert_eq!(reader.transport().written, encode_process_id(PROCESS_ID));
}

#[test]
fn wait_done_accepts_requested_id() {
    let reply = [0x37, 0x22, b't', b'm', b'2', b'0', 0];
    let mut reader = ReplyReader::new(Memory::with_replies(reply.to_vec()));
    assert_eq!(wait_done(&mut reader).unwrap(), PROCESS_ID);
}

#[test]
fn deliver_on_memory_records_job_then_optional_wait() {
    let reply = [0x37, 0x22, b't', b'm', b'2', b'0', 0];
    let bytes = encode(&hello()).unwrap();
    let mut reader = ReplyReader::new(Memory::with_replies(reply.to_vec()));
    deliver(&mut reader, &bytes, true).unwrap();
    let written = &reader.transport().written;
    assert!(written.starts_with(&bytes));
    assert!(written.ends_with(&encode_process_id(PROCESS_ID)));
}

#[test]
fn dry_test_all_prepares_without_opening() {
    run(&["--dry", "test", "all"]).unwrap();
}

#[test]
fn process_id_spells_tm20() {
    assert_eq!(PROCESS_ID, *b"tm20");
}

#[test]
fn dry_test_all_dumps_each_in_all_page_in_catalog_order() {
    let plan = run(&["--dry", "test", "all"]).unwrap();
    let expected: Vec<Vec<u8>> = tm20::catalog()
        .iter()
        .filter(|case| case.in_all)
        .map(|case| encode(&case.doc()).unwrap())
        .collect();
    assert!(!expected.is_empty());
    match plan {
        tm20::cli::Plan::Dump(chunks) => assert_eq!(chunks, expected),
        _ => panic!("expected a dump"),
    }
    let one = run(&["--dry", "test", "qr"]).unwrap();
    match one {
        tm20::cli::Plan::Dump(chunks) => {
            assert_eq!(chunks, vec![encode(&tm20::find_case("qr").unwrap().doc()).unwrap()])
        }
        _ => panic!("expected a dump"),
    }
}
