use tm20::{Command, encode, rule, ruler};
use tm20::{catalog, find_case};

#[test]
fn rule_is_text() {
    assert_eq!(rule(4, '─'), Command::Text("────".into()));
}

#[test]
fn ruler_encodes() {
    assert!(!encode(&ruler()).unwrap().is_empty());
}

#[test]
fn every_case_encodes() {
    for case in catalog() {
        encode(&case.doc()).unwrap_or_else(|e| panic!("{}: {e:?}", case.id));
    }
}

#[test]
fn ids_are_unique() {
    let mut ids: Vec<_> = catalog().iter().map(|c| c.id).collect();
    ids.sort_unstable();
    ids.dedup();
    assert_eq!(ids.len(), catalog().len());
}

#[test]
fn find_case_by_id() {
    assert_eq!(find_case("qr").map(|c| c.id), Some("qr"));
    assert!(find_case("nope").is_none());
    assert!(!find_case("drawer").unwrap().in_all);
}

#[test]
fn qr_case_page_holds_its_code_between_opening_and_close() {
    let page = find_case("qr").unwrap().doc();
    let cmds = page.commands();
    assert_eq!(cmds.len(), 7 + 3 + 13);
    match &cmds[9] {
        Command::Qr(q) => {
            assert_eq!(q.data, "https://example.com/tm20");
            assert_eq!(q.size, 4);
        }
        other => panic!("expected the QR code, got {other:?}"),
    }
}
