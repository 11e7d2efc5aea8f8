//! The two operations of the registry: registering an intent, and changing the
//! status of a match.
//!
//! Each operation works on a context that holds the accounts it was handed. It
//! either succeeds and changes the record, or fails and leaves the context as it
//! was.

use crate::address::{derive_intent_address, derived_view, intent_address, lemma_address_by_bytes, Address};
use crate::clock::unix_timestamp;
use crate::records::{
    decode_status, fits_budgets, text_of, texts_fit, ErrorCode, Failure, Intent, IntentStatus,
    Match, MatchStatus,
};
use vstd::prelude::*;

verus! {

/// The accounts of an intent registration.
pub struct RegisterIntent {
    /// The program under which the record's address is derived.
    pub program_id: Address,
    /// The agent that asks for the registration.
    pub agent: Address,
    /// Whether that agent signed the transaction.
    pub agent_signed: bool,
    /// The address of the record to create, as the transaction names it.
    pub intent_key: Address,
    /// What that address holds: `None` while nothing is allocated there.
    pub intent: Option<Intent>,
}

/// The accounts of a status update.
pub struct UpdateMatchStatus {
    /// The agent that asks for the update.
    pub agent: Address,
    /// Whether that agent signed the transaction.
    pub agent_signed: bool,
    /// The designated owner of the match. The match record itself names no
    /// owner, and how one is determined is left open: whoever loads the record
    /// says who owns it.
    pub match_owner: Address,
    /// The match record, loaded from the address that the transaction names.
    pub match_account: Match,
}

/// Whether a derivation came to the address `key`.
pub open spec fn derives(derived: Option<(Address, u8)>, key: Address) -> bool {
    match derived {
        Some(pair) => pair.0 == key,
        None => false,
    }
}

/// The bump seed of a derivation.
pub open spec fn bump_of(derived: Option<(Address, u8)>) -> u8 {
    match derived {
        Some(pair) => pair.1,
        None => 0,
    }
}

/// How a registration ends. The checks come in this order: the signature, the
/// address, the allocation, the byte budgets, the clock.
pub open spec fn register_result(
    ctx: RegisterIntent,
    title: Seq<char>,
    description: Seq<char>,
    category: Option<Seq<char>>,
    derived: Option<(Address, u8)>,
    clock: Option<i64>,
) -> Result<(), Failure> {
    if !ctx.agent_signed {
        Err(Failure::MissingSignature)
    } else if !derives(derived, ctx.intent_key) {
        Err(Failure::AddressMismatch)
    } else if ctx.intent is Some {
        Err(Failure::AllocationConflict)
    } else if !fits_budgets(title, description, category) {
        Err(Failure::OversizedField)
    } else if clock is None {
        Err(Failure::ClockUnavailable)
    } else {
        Ok(())
    }
}

/// The context after a registration: with the new record where it succeeds,
/// untouched where it fails.
pub open spec fn register_state(
    ctx: RegisterIntent,
    title: String,
    description: String,
    category: Option<String>,
    derived: Option<(Address, u8)>,
    clock: Option<i64>,
) -> RegisterIntent {
    if register_result(ctx, title@, description@, text_of(category), derived, clock) is Ok {
        RegisterIntent {
            intent: Some(
                Intent {
                    agent: ctx.agent,
                    title,
                    description,
                    category,
                    status: IntentStatus::Active,
                    created_at: clock->0,
                    bump: bump_of(derived),
                },
            ),
            ..ctx
        }
    } else {
        ctx
    }
}

/// How a status update ends. The checks come in this order: the signature, the
/// owner, the status code, the clock.
pub open spec fn update_result(ctx: UpdateMatchStatus, status: u8, clock: Option<i64>) -> Result<
    (),
    Failure,
> {
    if !ctx.agent_signed {
        Err(Failure::MissingSignature)
    } else if ctx.agent != ctx.match_owner {
        Err(Failure::Registry(ErrorCode::Unauthorized))
    } else if decode_status(status) is Err {
        Err(Failure::Registry(ErrorCode::InvalidStatus))
    } else if clock is None {
        Err(Failure::ClockUnavailable)
    } else {
        Ok(())
    }
}

/// The context after a status update: where it succeeds the match has the decoded
/// status and the clock's time as `updated_at`, and is otherwise as before; where
/// it fails nothing has changed.
pub open spec fn update_state(ctx: UpdateMatchStatus, status: u8, clock: Option<i64>) -> UpdateMatchStatus {
    if update_result(ctx, status, clock) is Ok {
        UpdateMatchStatus {
            match_account: Match {
                status: decode_status(status)->Ok_0,
                updated_at: clock->0,
                ..ctx.match_account
            },
            ..ctx
        }
    } else {
        ctx
    }
}

/// Registers an intent, given the address derived for the agent and the reading
/// of the clock.
///
/// On success the context holds the new record: owned by the agent, active,
/// stamped with the clock's time, and carrying the bump seed of the derivation.
/// Oversized texts are refused, never cut short.
pub fn register_intent_at(
    ctx: &mut RegisterIntent,
    title: String,
    description: String,
    category: Option<String>,
    derived: Option<(Address, u8)>,
    clock: Option<i64>,
) -> (result: Result<(), Failure>)
    ensures
        result == register_result(*old(ctx), title@, description@, text_of(category), derived, clock),
        *final(ctx) == register_state(*old(ctx), title, description, category, derived, clock),
        result is Ok ==> final(ctx).intent->0.well_formed(),
{
    if !ctx.agent_signed {
        return Err(Failure::MissingSignature);
    }
    let (key, bump) = match derived {
        Some(pair) => pair,
        None => {
            return Err(Failure::AddressMismatch);
        },
    };
    if !key.same_as(&ctx.intent_key) {
        return Err(Failure::AddressMismatch);
    }
    if ctx.intent.is_some() {
        return Err(Failure::AllocationConflict);
    }
    if !texts_fit(&title, &description, &category) {
        return Err(Failure::OversizedField);
    }
    let now = match clock {
        Some(now) => now,
        None => {
            return Err(Failure::ClockUnavailable);
        },
    };
    ctx.intent = Some(
        Intent {
            agent: ctx.agent,
            title,
            description,
            category,
            status: IntentStatus::Active,
            created_at: now,
            bump,
        },
    );
    Ok(())
}

/// Registers an intent for the agent of the context: derives the record's address
/// from the agent, reads the clock, and registers with both.
///
/// The outcome is that of `register_intent_at` for the derived address and for
/// whatever the clock gave.
pub fn register_intent(
    ctx: &mut RegisterIntent,
    title: String,
    description: String,
    category: Option<String>,
) -> (result: Result<(), Failure>)
    ensures
        exists|derived: Option<(Address, u8)>, clock: Option<i64>|
            {
                &&& derived_view(derived) == intent_address(old(ctx).program_id, old(ctx).agent)
                &&& result == #[trigger] register_result(
                    *old(ctx),
                    title@,
                    description@,
                    text_of(category),
                    derived,
                    clock,
                )
                &&& *final(ctx) == register_state(
                    *old(ctx),
                    title,
                    description,
                    category,
                    derived,
                    clock,
                )
            },
        result is Err ==> *final(ctx) == *old(ctx),
        result is Ok ==> final(ctx).intent->0.well_formed(),
{
    let derived = derive_intent_address(&ctx.program_id, &ctx.agent);
    let clock = unix_timestamp();
    register_intent_at(ctx, title, description, category, derived, clock)
}

/// Changes the status of a match, given the reading of the clock.
///
/// Only the designated owner may do so, and only to one of the four statuses; any
/// status may follow any other. On success `updated_at` is the clock's time and
/// every other field is as before.
pub fn update_match_status_at(ctx: &mut UpdateMatchStatus, status: u8, clock: Option<i64>) -> (result:
    Result<(), Failure>)
    ensures
        result == update_result(*old(ctx), status, clock),
        *final(ctx) == update_state(*old(ctx), status, clock),
        old(ctx).match_account.well_formed() ==> final(ctx).match_account.well_formed(),
{
    if !ctx.agent_signed {
        return Err(Failure::MissingSignature);
    }
    if !ctx.agent.same_as(&ctx.match_owner) {
        return Err(Failure::Registry(ErrorCode::Unauthorized));
    }
    let decoded = match MatchStatus::from_code(status) {
        Ok(decoded) => decoded,
        Err(code) => {
            return Err(Failure::Registry(code));
        },
    };
    let now = match clock {
        Some(now) => now,
        None => {
            return Err(Failure::ClockUnavailable);
        },
    };
    ctx.match_account.status = decoded;
    ctx.match_account.updated_at = now;
    Ok(())
}

/// Changes the status of a match, stamping it with the time that the clock gives.
///
/// The outcome is that of `update_match_status_at` for whatever the clock gave:
/// a missing signature, a foreign agent and an invalid code fail as they do there,
/// whatever the clock.
pub fn update_match_status(ctx: &mut UpdateMatchStatus, status: u8) -> (result: Result<(), Failure>)
    ensures
        exists|clock: Option<i64>|
            {
                &&& result == #[trigger] update_result(*old(ctx), status, clock)
                &&& *final(ctx) == update_state(*old(ctx), status, clock)
            },
        result is Err ==> *final(ctx) == *old(ctx),
        old(ctx).match_account.well_formed() ==> final(ctx).match_account.well_formed(),
{
    let clock = unix_timestamp();
    update_match_status_at(ctx, status, clock)
}

/// An agent has at most one intent: once a registration has succeeded, a second
/// one for the same agent fails with an allocation conflict, whatever it asks
/// for, and changes nothing.
pub proof fn lemma_second_registration_conflicts(
    before: RegisterIntent,
    first: (String, String, Option<String>),
    first_derived: Option<(Address, u8)>,
    first_clock: Option<i64>,
    second: (String, String, Option<String>),
    second_derived: Option<(Address, u8)>,
    second_clock: Option<i64>,
)
    requires
        derived_view(first_derived) == intent_address(before.program_id, before.agent),
        derived_view(second_derived) == intent_address(before.program_id, before.agent),
        register_result(before, first.0@, first.1@, text_of(first.2), first_derived, first_clock) is Ok,
    ensures
        ({
            let after = register_state(before, first.0, first.1, first.2, first_derived, first_clock);
            &&& register_result(
                after,
                second.0@,
                second.1@,
                text_of(second.2),
                second_derived,
                second_clock,
            ) == Err::<(), Failure>(Failure::AllocationConflict)
            &&& register_state(after, second.0, second.1, second.2, second_derived, second_clock)
                == after
        }),
{
    let first_pair = first_derived->0;
    let second_pair = second_derived->0;
    lemma_address_by_bytes(first_pair.0, second_pair.0);
}

/// A registration with every check passed succeeds exactly when the three texts
/// fit their byte budgets; otherwise it fails as oversized and writes no record.
pub proof fn lemma_registration_bounds(
    ctx: RegisterIntent,
    title: String,
    description: String,
    category: Option<String>,
    derived: Option<(Address, u8)>,
    now: i64,
)
    requires
        ctx.agent_signed,
        derives(derived, ctx.intent_key),
        ctx.intent is None,
    ensures
        fits_budgets(title@, description@, text_of(category)) ==> register_result(
            ctx,
            title@,
            description@,
            text_of(category),
            derived,
            Some(now),
        ) is Ok,
        !fits_budgets(title@, description@, text_of(category)) ==> {
            &&& register_result(ctx, title@, description@, text_of(category), derived, Some(now))
                == Err::<(), Failure>(Failure::OversizedField)
            &&& register_state(ctx, title, description, category, derived, Some(now)).intent is None
        },
{
}

/// A signed request by anyone but the designated owner fails as unauthorized and
/// changes nothing, whatever the status code and the clock.
pub proof fn lemma_only_owner_updates(ctx: UpdateMatchStatus, status: u8, clock: Option<i64>)
    requires
        ctx.agent_signed,
        ctx.agent != ctx.match_owner,
    ensures
        update_result(ctx, status, clock) == Err::<(), Failure>(
            Failure::Registry(ErrorCode::Unauthorized),
        ),
        update_state(ctx, status, clock) == ctx,
{
}

/// An update with a status code above 3 never succeeds and changes nothing; asked
/// by the owner, its failure is the invalid status.
pub proof fn lemma_invalid_status_changes_nothing(ctx: UpdateMatchStatus, status: u8, clock: Option<i64>)
    requires
        status > 3,
    ensures
        update_result(ctx, status, clock) is Err,
        update_state(ctx, status, clock) == ctx,
        ctx.agent_signed && ctx.agent == ctx.match_owner ==> update_result(ctx, status, clock)
            == Err::<(), Failure>(Failure::Registry(ErrorCode::InvalidStatus)),
{
}

/// Any status may follow any other: asked by the owner, with a valid code and a
/// reading of the clock, an update succeeds whatever the match's status was, and
/// sets the status that the code stands for.
pub proof fn lemma_every_transition_allowed(ctx: UpdateMatchStatus, status: u8, now: i64)
    requires
        ctx.agent_signed,
        ctx.agent == ctx.match_owner,
        status <= 3,
    ensures
        update_result(ctx, status, Some(now)) is Ok,
        decode_status(status) == Ok::<MatchStatus, ErrorCode>(
            update_state(ctx, status, Some(now)).match_account.status,
        ),
{
}

/// A successful update changes the status and `updated_at` alone: `created_at`
/// and every other field stay. Under a clock that has moved on since the last
/// change, `updated_at` strictly grows.
pub proof fn lemma_update_stamps_time(ctx: UpdateMatchStatus, status: u8, now: i64)
    requires
        update_result(ctx, status, Some(now)) is Ok,
    ensures
        ({
            let before = ctx.match_account;
            let after = update_state(ctx, status, Some(now)).match_account;
            &&& after.updated_at == now
            &&& now > before.updated_at ==> after.updated_at > before.updated_at
            &&& after.created_at == before.created_at
            &&& after.intent_a == before.intent_a
            &&& after.intent_b == before.intent_b
            &&& after.match_score == before.match_score
            &&& after.bump == before.bump
        }),
{
}

/// No update ever touches `created_at`, whether it succeeds or fails.
pub proof fn lemma_creation_time_is_fixed(ctx: UpdateMatchStatus, status: u8, clock: Option<i64>)
    ensures
        update_state(ctx, status, clock).match_account.created_at == ctx.match_account.created_at,
{
}

} // verus!
