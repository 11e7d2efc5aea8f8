use anchor_lang::prelude::borsh;
use intent_market::address::Address;
use intent_market::records::{Intent, IntentStatus, Match, MatchStatus};

fn address(fill: u8) -> Address {
    Address { bytes: [fill; 32] }
}

fn small_intent() -> Intent {
    Intent {
        agent: address(7),
        title: String::from("ab"),
        description: String::from("c"),
        category: Some(String::from("d")),
        status: IntentStatus::Fulfilled,
        created_at: 258,
        bump: 254,
    }
}

fn full_intent() -> Intent {
    Intent {
        agent: address(200),
        title: "t".repeat(255),
        description: "\u{e9}".repeat(500),
        category: Some("c".repeat(50)),
        status: IntentStatus::Cancelled,
        created_at: i64::MAX,
        bump: 255,
    }
}

fn some_match() -> Match {
    Match {
        intent_a: address(1),
        intent_b: address(2),
        match_score: 10000,
        status: MatchStatus::Rejected,
        created_at: -1,
        updated_at: 513,
        bump: 9,
    }
}

#[test]
fn record_sizes() {
    assert_eq!(Intent::LEN, 1360);
    assert_eq!(Intent::LEN, 32 + (4 + 255) + (4 + 1000) + (1 + 4 + 50) + 1 + 8 + 1);
    assert_eq!(Match::LEN, 84);
}

#[test]
fn intent_bytes_are_the_fields_in_order() {
    let mut expected: Vec<u8> = vec![7; 32];
    expected.extend_from_slice(&[2, 0, 0, 0, b'a', b'b']);
    expected.extend_from_slice(&[1, 0, 0, 0, b'c']);
    expected.extend_from_slice(&[1, 1, 0, 0, 0, b'd']);
    expected.push(1);
    expected.extend_from_slice(&[2, 1, 0, 0, 0, 0, 0, 0]);
    expected.push(254);
    assert_eq!(small_intent().to_bytes(), Some(expected));
}

#[test]
fn intent_without_category_takes_one_byte_for_it() {
    let mut intent = small_intent();
    intent.category = None;
    let bytes = intent.to_bytes().unwrap();
    assert_eq!(bytes.len(), 32 + 6 + 5 + 1 + 1 + 8 + 1);
    assert_eq!(bytes[43], 0);
    assert_eq!(Intent::from_bytes(&bytes), Some(intent));
}

#[test]
fn intent_bytes_agree_with_borsh() {
    for intent in [small_intent(), full_intent()] {
        let status: u8 = match intent.status {
            IntentStatus::Active => 0,
            IntentStatus::Fulfilled => 1,
            IntentStatus::Cancelled => 2,
        };
        let fields = (
            intent.agent.bytes,
            intent.title.clone(),
            intent.description.clone(),
            intent.category.clone(),
            status,
            intent.created_at,
            intent.bump,
        );
        assert_eq!(intent.to_bytes().unwrap(), borsh::to_vec(&fields).unwrap());
    }
}

#[test]
fn match_bytes_agree_with_borsh() {
    let m = some_match();
    let fields =
        (m.intent_a.bytes, m.intent_b.bytes, m.match_score, 2u8, m.created_at, m.updated_at, m.bump);
    assert_eq!(m.to_bytes(), borsh::to_vec(&fields).unwrap());
}

#[test]
fn intent_at_its_budgets_fills_the_slot_and_comes_back() {
    let intent = full_intent();
    let bytes = intent.to_bytes().unwrap();
    assert_eq!(bytes.len(), 1360);
    assert_eq!(bytes.len(), Intent::LEN);
    assert_eq!(Intent::from_bytes(&bytes), Some(intent));
}

#[test]
fn small_intent_comes_back_from_a_padded_slot() {
    let intent = small_intent();
    let mut slot = intent.to_bytes().unwrap();
    slot.resize(Intent::LEN, 0);
    assert_eq!(Intent::from_bytes(&slot), Some(intent));
}

#[test]
fn oversized_intent_has_no_bytes() {
    let mut intent = full_intent();
    intent.title.push('x');
    assert!(!intent.is_well_formed());
    assert_eq!(intent.to_bytes(), None);
    let mut intent = full_intent();
    intent.description.push('x');
    assert_eq!(intent.to_bytes(), None);
    let mut intent = full_intent();
    intent.category = Some("c".repeat(51));
    assert_eq!(intent.to_bytes(), None);
    assert!(full_intent().is_well_formed());
}

#[test]
fn intent_is_not_read_from_broken_bytes() {
    let bytes = small_intent().to_bytes().unwrap();
    assert_eq!(Intent::from_bytes(&bytes[..bytes.len() - 1]), None);
    assert_eq!(Intent::from_bytes(&bytes[..31]), None);
    assert_eq!(Intent::from_bytes(&[]), None);

    let mut bad_status = bytes.clone();
    bad_status[49] = 3;
    assert_eq!(Intent::from_bytes(&bad_status), None);

    let mut bad_flag = bytes.clone();
    bad_flag[43] = 2;
    assert_eq!(Intent::from_bytes(&bad_flag), None);

    let mut bad_text = bytes.clone();
    bad_text[36] = 0xff;
    assert_eq!(Intent::from_bytes(&bad_text), None);

    let mut long_title = bytes.clone();
    long_title[32] = 255;
    long_title[33] = 255;
    assert_eq!(Intent::from_bytes(&long_title), None);
}

#[test]
fn intent_with_a_title_over_budget_is_not_read() {
    let mut bytes: Vec<u8> = vec![7; 32];
    bytes.extend_from_slice(&[0, 1, 0, 0]);
    bytes.extend_from_slice(&[b'a'; 256]);
    bytes.extend_from_slice(&[0, 0, 0, 0]);
    bytes.push(0);
    bytes.push(0);
    bytes.extend_from_slice(&[0; 8]);
    bytes.push(1);
    assert_eq!(Intent::from_bytes(&bytes), None);
}

#[test]
fn every_intent_status_has_its_tag() {
    assert_eq!(IntentStatus::Active.tag(), 0);
    assert_eq!(IntentStatus::Fulfilled.tag(), 1);
    assert_eq!(IntentStatus::Cancelled.tag(), 2);
    assert_eq!(IntentStatus::from_tag(0), Some(IntentStatus::Active));
    assert_eq!(IntentStatus::from_tag(1), Some(IntentStatus::Fulfilled));
    assert_eq!(IntentStatus::from_tag(2), Some(IntentStatus::Cancelled));
    assert_eq!(IntentStatus::from_tag(3), None);
}

#[test]
fn match_bytes_are_the_fields_in_order() {
    let mut expected: Vec<u8> = vec![1; 32];
    expected.extend_from_slice(&[2; 32]);
    expected.extend_from_slice(&[0x10, 0x27]);
    expected.push(2);
    expected.extend_from_slice(&[0xff; 8]);
    expected.extend_from_slice(&[1, 2, 0, 0, 0, 0, 0, 0]);
    expected.push(9);
    assert_eq!(expected.len(), 84);
    assert_eq!(some_match().to_bytes(), expected);
}

#[test]
fn match_comes_back_from_its_bytes() {
    let m = some_match();
    assert_eq!(Match::from_bytes(&m.to_bytes()), Some(m));
    let mut slot = m.to_bytes();
    slot.extend_from_slice(&[0; 16]);
    assert_eq!(Match::from_bytes(&slot), Some(m));
    let extreme = Match {
        intent_a: address(255),
        intent_b: address(0),
        match_score: u16::MAX,
        status: MatchStatus::Completed,
        created_at: i64::MIN,
        updated_at: i64::MAX,
        bump: 0,
    };
    assert_eq!(Match::from_bytes(&extreme.to_bytes()), Some(extreme));
}

#[test]
fn match_is_not_read_from_broken_bytes() {
    let bytes = some_match().to_bytes();
    assert_eq!(Match::from_bytes(&bytes[..83]), None);
    assert_eq!(Match::from_bytes(&[]), None);
    let mut bad_status = bytes.clone();
    bad_status[66] = 4;
    assert_eq!(Match::from_bytes(&bad_status), None);
}
