use intent_market::address::{derive_intent_address, Address};
use intent_market::instructions::{register_intent, register_intent_at, RegisterIntent};
use intent_market::records::{texts_fit, Failure, Intent, IntentStatus};

fn address(fill: u8) -> Address {
    Address { bytes: [fill; 32] }
}

fn context(agent: Address, key: Address) -> RegisterIntent {
    RegisterIntent {
        program_id: address(9),
        agent,
        agent_signed: true,
        intent_key: key,
        intent: None,
    }
}

fn text(len: usize) -> String {
    "a".repeat(len)
}

#[test]
fn registration_fills_every_field() {
    let agent = address(1);
    let key = address(2);
    let mut ctx = context(agent, key);
    let result = register_intent_at(
        &mut ctx,
        String::from("Need a courier"),
        String::from("Parcel from A to B"),
        Some(String::from("logistics")),
        Some((key, 254)),
        Some(1_700_000_000),
    );
    assert_eq!(result, Ok(()));
    let expected = Intent {
        agent,
        title: String::from("Need a courier"),
        description: String::from("Parcel from A to B"),
        category: Some(String::from("logistics")),
        status: IntentStatus::Active,
        created_at: 1_700_000_000,
        bump: 254,
    };
    assert_eq!(ctx.intent, Some(expected));
    assert_eq!(ctx.agent, agent);
    assert_eq!(ctx.intent_key, key);
    assert!(ctx.agent_signed);
}

#[test]
fn registration_without_category() {
    let key = address(2);
    let mut ctx = context(address(1), key);
    let result = register_intent_at(
        &mut ctx,
        String::from("t"),
        String::new(),
        None,
        Some((key, 255)),
        Some(-5),
    );
    assert_eq!(result, Ok(()));
    let intent = ctx.intent.unwrap();
    assert_eq!(intent.category, None);
    assert_eq!(intent.created_at, -5);
    assert_eq!(intent.bump, 255);
    assert_eq!(intent.description, "");
}

#[test]
fn second_registration_is_an_allocation_conflict() {
    let key = address(2);
    let mut ctx = context(address(1), key);
    let first = register_intent_at(
        &mut ctx,
        String::from("first"),
        String::from("one"),
        None,
        Some((key, 250)),
        Some(10),
    );
    assert_eq!(first, Ok(()));
    let kept = ctx.intent.clone();
    let second = register_intent_at(
        &mut ctx,
        String::from("second"),
        String::from("two"),
        Some(String::from("other")),
        Some((key, 250)),
        Some(11),
    );
    assert_eq!(second, Err(Failure::AllocationConflict));
    assert_eq!(ctx.intent, kept);
    assert_eq!(ctx.intent.unwrap().title, "first");
}

#[test]
fn conflict_comes_before_the_byte_budgets() {
    let key = address(2);
    let mut ctx = context(address(1), key);
    assert_eq!(
        register_intent_at(&mut ctx, text(1), text(1), None, Some((key, 1)), Some(1)),
        Ok(())
    );
    assert_eq!(
        register_intent_at(&mut ctx, text(256), text(1), None, Some((key, 1)), Some(2)),
        Err(Failure::AllocationConflict)
    );
}

#[test]
fn title_of_256_bytes_is_refused_and_255_accepted() {
    let key = address(2);
    let mut ctx = context(address(1), key);
    let refused = register_intent_at(&mut ctx, text(256), text(3), None, Some((key, 7)), Some(1));
    assert_eq!(refused, Err(Failure::OversizedField));
    assert_eq!(ctx.intent, None);
    let accepted = register_intent_at(&mut ctx, text(255), text(3), None, Some((key, 7)), Some(1));
    assert_eq!(accepted, Ok(()));
    assert_eq!(ctx.intent.unwrap().title.len(), 255);
}

#[test]
fn description_of_1001_bytes_is_refused_and_1000_accepted() {
    let key = address(2);
    let mut ctx = context(address(1), key);
    let refused = register_intent_at(&mut ctx, text(1), text(1001), None, Some((key, 7)), Some(1));
    assert_eq!(refused, Err(Failure::OversizedField));
    assert_eq!(ctx.intent, None);
    let accepted = register_intent_at(&mut ctx, text(1), text(1000), None, Some((key, 7)), Some(1));
    assert_eq!(accepted, Ok(()));
    assert_eq!(ctx.intent.unwrap().description.len(), 1000);
}

#[test]
fn category_of_51_bytes_is_refused_and_50_accepted() {
    let key = address(2);
    let mut ctx = context(address(1), key);
    let refused =
        register_intent_at(&mut ctx, text(1), text(1), Some(text(51)), Some((key, 7)), Some(1));
    assert_eq!(refused, Err(Failure::OversizedField));
    assert_eq!(ctx.intent, None);
    let accepted =
        register_intent_at(&mut ctx, text(1), text(1), Some(text(50)), Some((key, 7)), Some(1));
    assert_eq!(accepted, Ok(()));
    assert_eq!(ctx.intent.unwrap().category, Some(text(50)));
}

#[test]
fn budgets_count_bytes_not_characters() {
    let two_bytes_each = "\u{e9}".repeat(128);
    assert_eq!(two_bytes_each.chars().count(), 128);
    assert_eq!(two_bytes_each.len(), 256);
    assert!(!texts_fit(&two_bytes_each, &String::new(), &None));
    let fits = "\u{e9}".repeat(127);
    assert!(texts_fit(&fits, &String::new(), &None));
    let key = address(2);
    let mut ctx = context(address(1), key);
    assert_eq!(
        register_intent_at(&mut ctx, two_bytes_each, text(1), None, Some((key, 7)), Some(1)),
        Err(Failure::OversizedField)
    );
    assert_eq!(ctx.intent, None);
}

#[test]
fn unsigned_registration_is_refused() {
    let key = address(2);
    let mut ctx = context(address(1), key);
    ctx.agent_signed = false;
    let result = register_intent_at(&mut ctx, text(1), text(1), None, Some((key, 7)), Some(1));
    assert_eq!(result, Err(Failure::MissingSignature));
    assert_eq!(ctx.intent, None);
}

#[test]
fn registration_at_a_foreign_address_is_refused() {
    let mut ctx = context(address(1), address(2));
    let elsewhere = register_intent_at(
        &mut ctx,
        text(1),
        text(1),
        None,
        Some((address(3), 7)),
        Some(1),
    );
    assert_eq!(elsewhere, Err(Failure::AddressMismatch));
    let none = register_intent_at(&mut ctx, text(1), text(1), None, None, Some(1));
    assert_eq!(none, Err(Failure::AddressMismatch));
    assert_eq!(ctx.intent, None);
}

#[test]
fn registration_without_a_clock_is_refused() {
    let key = address(2);
    let mut ctx = context(address(1), key);
    let result = register_intent_at(&mut ctx, text(1), text(1), None, Some((key, 7)), None);
    assert_eq!(result, Err(Failure::ClockUnavailable));
    assert_eq!(ctx.intent, None);
}

#[test]
fn register_intent_checks_the_derived_address() {
    let agent = address(1);
    let mut ctx = context(agent, address(2));
    let result = register_intent(&mut ctx, text(1), text(1), None);
    assert_eq!(result, Err(Failure::AddressMismatch));
    assert_eq!(ctx.intent, None);
}

#[test]
fn register_intent_outside_a_ledger_has_no_clock() {
    let agent = address(1);
    let (key, _) = derive_intent_address(&address(9), &agent).unwrap();
    let mut ctx = context(agent, key);
    let oversized = register_intent(&mut ctx, text(256), text(1), None);
    assert_eq!(oversized, Err(Failure::OversizedField));
    let result = register_intent(&mut ctx, text(255), text(1), None);
    assert_eq!(result, Err(Failure::ClockUnavailable));
    assert_eq!(ctx.intent, None);
}
