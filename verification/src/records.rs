//! The two kinds of record that the registry keeps, and its error conditions.

use crate::address::Address;
use vstd::prelude::*;
use vstd::utf8::encode_utf8;

verus! {

/// The most bytes that the title of an intent may take.
pub const MAX_TITLE_LEN: usize = 255;

/// The most bytes that the description of an intent may take.
pub const MAX_DESCRIPTION_LEN: usize = 1000;

/// The most bytes that the category of an intent may take.
pub const MAX_CATEGORY_LEN: usize = 50;

/// The highest match score: 100.00 per cent, in hundredths.
pub const MAX_MATCH_SCORE: u16 = 10000;

/// Where an intent stands.
#[derive(Clone, Copy, Debug, PartialEq, Eq, Structural)]
pub enum IntentStatus {
    Active,
    Fulfilled,
    Cancelled,
}

/// Where a match stands.
#[derive(Clone, Copy, Debug, PartialEq, Eq, Structural)]
pub enum MatchStatus {
    Pending,
    Accepted,
    Rejected,
    Completed,
}

/// The registry's own two error conditions.
#[derive(Clone, Copy, Debug, PartialEq, Eq, Structural)]
pub enum ErrorCode {
    InvalidStatus,
    Unauthorized,
}

/// Every way in which an operation on the registry can fail. A failed operation
/// leaves all records as they were.
#[derive(Clone, Copy, Debug, PartialEq, Eq, Structural)]
pub enum Failure {
    /// One of the registry's own conditions.
    Registry(ErrorCode),
    /// The requesting agent did not sign.
    MissingSignature,
    /// The record named is not at the address derived from the agent.
    AddressMismatch,
    /// The address derived from the agent already holds a record.
    AllocationConflict,
    /// A text is longer than its byte budget.
    OversizedField,
    /// The ledger gave no reading of its clock.
    ClockUnavailable,
}

/// An offer or request that an agent has published.
#[derive(Clone, Debug, PartialEq, Eq)]
pub struct Intent {
    pub agent: Address,
    pub title: String,
    pub description: String,
    pub category: Option<String>,
    pub status: IntentStatus,
    pub created_at: i64,
    pub bump: u8,
}

/// A proposed pairing of two intents.
///
/// The record names the two intents and no owner. Who may change a match is an
/// open question of the design, which this type does not settle: the operation
/// that changes it is told the designated owner from outside.
#[derive(Clone, Copy, Debug, PartialEq, Eq)]
pub struct Match {
    pub intent_a: Address,
    pub intent_b: Address,
    pub match_score: u16,
    pub status: MatchStatus,
    pub created_at: i64,
    pub updated_at: i64,
    pub bump: u8,
}

/// What an intent holds, as mathematical values.
pub struct IntentView {
    pub agent: Seq<u8>,
    pub title: Seq<char>,
    pub description: Seq<char>,
    pub category: Option<Seq<char>>,
    pub status: IntentStatus,
    pub created_at: i64,
    pub bump: u8,
}

/// What a match holds, as mathematical values.
pub struct MatchView {
    pub intent_a: Seq<u8>,
    pub intent_b: Seq<u8>,
    pub match_score: u16,
    pub status: MatchStatus,
    pub created_at: i64,
    pub updated_at: i64,
    pub bump: u8,
}

/// The characters of an optional text.
pub open spec fn text_of(text: Option<String>) -> Option<Seq<char>> {
    match text {
        Some(s) => Some(s@),
        None => None,
    }
}

/// The number of bytes that a text takes in UTF-8.
pub open spec fn byte_len(text: Seq<char>) -> nat {
    encode_utf8(text).len()
}

/// Whether title, description and category each fit their byte budget.
pub open spec fn fits_budgets(
    title: Seq<char>,
    description: Seq<char>,
    category: Option<Seq<char>>,
) -> bool {
    &&& byte_len(title) <= MAX_TITLE_LEN
    &&& byte_len(description) <= MAX_DESCRIPTION_LEN
    &&& match category {
        Some(c) => byte_len(c) <= MAX_CATEGORY_LEN,
        None => true,
    }
}

impl View for Intent {
    type V = IntentView;

    open spec fn view(&self) -> IntentView {
        IntentView {
            agent: self.agent@,
            title: self.title@,
            description: self.description@,
            category: text_of(self.category),
            status: self.status,
            created_at: self.created_at,
            bump: self.bump,
        }
    }
}

impl View for Match {
    type V = MatchView;

    open spec fn view(&self) -> MatchView {
        MatchView {
            intent_a: self.intent_a@,
            intent_b: self.intent_b@,
            match_score: self.match_score,
            status: self.status,
            created_at: self.created_at,
            updated_at: self.updated_at,
            bump: self.bump,
        }
    }
}

impl IntentView {
    /// Every text is within its byte budget.
    pub open spec fn well_formed(self) -> bool {
        &&& self.agent.len() == 32
        &&& fits_budgets(self.title, self.description, self.category)
    }
}

impl MatchView {
    /// The score is a percentage in hundredths, and the addresses are whole.
    pub open spec fn well_formed(self) -> bool {
        &&& self.intent_a.len() == 32
        &&& self.intent_b.len() == 32
        &&& self.match_score <= MAX_MATCH_SCORE
    }
}

impl Intent {
    /// The bytes that an intent takes at most: the agent, the three texts with
    /// their length prefixes (and the tag of the optional one), the status tag,
    /// the timestamp and the bump seed.
    pub const LEN: usize = 32 + 4 + 255 + 4 + 1000 + 1 + 4 + 50 + 1 + 8 + 1;

    /// Every text is within its byte budget.
    pub open spec fn well_formed(&self) -> bool {
        self@.well_formed()
    }

    /// Tests whether every text is within its byte budget.
    pub fn is_well_formed(&self) -> (ok: bool)
        ensures
            ok == self.well_formed(),
    {
        texts_fit(&self.title, &self.description, &self.category)
    }
}

impl Match {
    /// The bytes that a match takes: two addresses, the score, the status tag,
    /// two timestamps and the bump seed.
    pub const LEN: usize = 32 + 32 + 2 + 1 + 8 + 8 + 1;

    /// The score is at most `MAX_MATCH_SCORE`.
    pub open spec fn well_formed(&self) -> bool {
        self@.well_formed()
    }

    /// Tests whether the score is in range.
    pub fn is_well_formed(&self) -> (ok: bool)
        ensures
            ok == self.well_formed(),
    {
        self.match_score <= MAX_MATCH_SCORE
    }
}

/// Tests whether title, description and category each fit their byte budget.
pub fn texts_fit(title: &String, description: &String, category: &Option<String>) -> (ok: bool)
    ensures
        ok == fits_budgets(title@, description@, text_of(*category)),
{
    let category_fits = match category {
        Some(c) => c.as_str().as_bytes().len() <= MAX_CATEGORY_LEN,
        None => true,
    };
    title.as_str().as_bytes().len() <= MAX_TITLE_LEN && description.as_str().as_bytes().len() <= MAX_DESCRIPTION_LEN
        && category_fits
}

/// The status that a code stands for: 0 to 3 are the four statuses in order, and
/// no other code is one.
pub open spec fn decode_status(code: u8) -> Result<MatchStatus, ErrorCode> {
    if code == 0 {
        Ok(MatchStatus::Pending)
    } else if code == 1 {
        Ok(MatchStatus::Accepted)
    } else if code == 2 {
        Ok(MatchStatus::Rejected)
    } else if code == 3 {
        Ok(MatchStatus::Completed)
    } else {
        Err(ErrorCode::InvalidStatus)
    }
}

impl MatchStatus {
    /// Decodes a status code; a code above 3 is `InvalidStatus`.
    pub fn from_code(code: u8) -> (decoded: Result<MatchStatus, ErrorCode>)
        ensures
            decoded == decode_status(code),
    {
        match code {
            0 => Ok(MatchStatus::Pending),
            1 => Ok(MatchStatus::Accepted),
            2 => Ok(MatchStatus::Rejected),
            3 => Ok(MatchStatus::Completed),
            _ => Err(ErrorCode::InvalidStatus),
        }
    }

    /// The code of a status.
    pub open spec fn code_of(self) -> u8 {
        match self {
            MatchStatus::Pending => 0,
            MatchStatus::Accepted => 1,
            MatchStatus::Rejected => 2,
            MatchStatus::Completed => 3,
        }
    }

    /// The code that decodes to this status.
    pub fn code(&self) -> (code: u8)
        ensures
            code == self.code_of(),
            decode_status(code) == Ok::<MatchStatus, ErrorCode>(*self),
    {
        match self {
            MatchStatus::Pending => 0,
            MatchStatus::Accepted => 1,
            MatchStatus::Rejected => 2,
            MatchStatus::Completed => 3,
        }
    }
}

impl ErrorCode {
    /// The number under which the condition is reported: 6000 for an invalid
    /// status, 6001 for an unauthorized agent.
    pub fn code(&self) -> (code: u32)
        ensures
            code == match *self {
                ErrorCode::InvalidStatus => 6000u32,
                ErrorCode::Unauthorized => 6001u32,
            },
    {
        match self {
            ErrorCode::InvalidStatus => 6000,
            ErrorCode::Unauthorized => 6001,
        }
    }

    /// The condition in words.
    pub fn message(&self) -> (text: String)
        ensures
            text@ == match *self {
                ErrorCode::InvalidStatus => "Invalid status"@,
                ErrorCode::Unauthorized => "Unauthorized"@,
            },
    {
        match self {
            ErrorCode::InvalidStatus => String::from_str("Invalid status"),
            ErrorCode::Unauthorized => String::from_str("Unauthorized"),
        }
    }
}

} // verus!
