//! The byte layout of the two records.
//!
//! A record is its fields one after another: an address as its 32 bytes, a text
//! as its length in four little-endian bytes and then its UTF-8 bytes, an optional
//! text behind a byte that is 1 where the text is there and 0 where it is not, a
//! status as one byte, a score as two and a timestamp as eight little-endian
//! bytes, and the bump seed as one byte. Decoding reads a record from the front
//! of a slot and leaves what follows it unread.

use crate::address::Address;
use crate::records::{
    byte_len, decode_status, Intent, IntentStatus, IntentView, Match, MatchStatus, MatchView,
    MAX_CATEGORY_LEN, MAX_DESCRIPTION_LEN, MAX_TITLE_LEN,
};
use vstd::bytes::*;
use vstd::prelude::*;
use vstd::slice::{slice_subrange, slice_to_vec};
use vstd::string::StrSliceExecFns;
use vstd::utf8::{decode_utf8, encode_utf8, encode_utf8_decode_utf8, encode_utf8_valid_utf8, valid_utf8};

verus! {

/// A text in the layout: the number of its bytes, then the bytes.
pub open spec fn encode_text(text: Seq<char>) -> Seq<u8> {
    spec_u32_to_le_bytes(byte_len(text) as u32) + encode_utf8(text)
}

/// The text that stands at `at` in `data` and the place behind it, where a text
/// of at most `max` bytes stands there whole.
pub open spec fn decode_text_at(data: Seq<u8>, at: int, max: int) -> Option<(Seq<char>, int)> {
    if 0 <= at && at + 4 <= data.len() {
        let len = spec_u32_from_le_bytes(data.subrange(at, at + 4)) as int;
        let end = at + 4 + len;
        if len <= max && end <= data.len() && valid_utf8(data.subrange(at + 4, end)) {
            Some((decode_utf8(data.subrange(at + 4, end)), end))
        } else {
            None
        }
    } else {
        None
    }
}

/// Turns bytes into a text with `String::from_utf8`: there is a text exactly
/// where the bytes are valid UTF-8, and it is the one that they encode.
#[verifier::external_body]
fn text_from_utf8(bytes: Vec<u8>) -> (text: Option<String>)
    ensures
        text is Some <==> valid_utf8(bytes@),
        text matches Some(s) ==> s@ == decode_utf8(bytes@),
{
    match String::from_utf8(bytes) {
        Ok(s) => Some(s),
        Err(_) => None,
    }
}

/// Appends a text of at most `u32::MAX` bytes to `out`.
fn write_text(out: &mut Vec<u8>, text: &String)
    requires
        byte_len(text@) <= u32::MAX,
    ensures
        final(out)@ == old(out)@ + encode_text(text@),
{
    let mut bytes = text.as_str().as_bytes_vec();
    let mut len = u32_to_le_bytes(bytes.len() as u32);
    out.append(&mut len);
    out.append(&mut bytes);
    assert(final(out)@ =~= old(out)@ + encode_text(text@));
}

/// Reads the text at `at`, of at most `max` bytes.
fn read_text(data: &[u8], at: usize, max: usize) -> (found: Option<(String, usize)>)
    requires
        at <= data.len(),
    ensures
        match found {
            Some(pair) => decode_text_at(data@, at as int, max as int) == Some(
                (pair.0@, pair.1 as int),
            ),
            None => decode_text_at(data@, at as int, max as int) is None,
        },
{
    if data.len() - at < 4 {
        return None;
    }
    let len = u32_from_le_bytes(slice_subrange(data, at, at + 4)) as usize;
    if len > max || len > data.len() - at - 4 {
        return None;
    }
    let end = at + 4 + len;
    match text_from_utf8(slice_to_vec(slice_subrange(data, at + 4, end))) {
        Some(text) => Some((text, end)),
        None => None,
    }
}

/// A text within its budget is read back from wherever it was written.
pub proof fn lemma_text_round_trip(data: Seq<u8>, at: int, text: Seq<char>, max: int)
    requires
        0 <= at,
        at + encode_text(text).len() <= data.len(),
        data.subrange(at, at + encode_text(text).len()) == encode_text(text),
        byte_len(text) <= max <= u32::MAX,
    ensures
        decode_text_at(data, at, max) == Some((text, at + 4 + byte_len(text))),
{
    lemma_auto_spec_u32_to_from_le_bytes();
    encode_utf8_valid_utf8(text);
    encode_utf8_decode_utf8(text);
    let len = byte_len(text) as u32;
    let whole = encode_text(text);
    assert(whole.len() == 4 + byte_len(text));
    assert(data.subrange(at, at + 4) =~= whole.subrange(0, 4));
    assert(whole.subrange(0, 4) =~= spec_u32_to_le_bytes(len));
    assert(data.subrange(at + 4, at + 4 + byte_len(text)) =~= whole.subrange(4, whole.len() as int));
    assert(whole.subrange(4, whole.len() as int) =~= encode_utf8(text));
}

/// The byte that stands for the status of an intent.
pub open spec fn intent_status_tag(status: IntentStatus) -> u8 {
    match status {
        IntentStatus::Active => 0,
        IntentStatus::Fulfilled => 1,
        IntentStatus::Cancelled => 2,
    }
}

/// The status of an intent that a byte stands for, if it stands for one.
pub open spec fn decode_intent_status(tag: u8) -> Option<IntentStatus> {
    if tag == 0 {
        Some(IntentStatus::Active)
    } else if tag == 1 {
        Some(IntentStatus::Fulfilled)
    } else if tag == 2 {
        Some(IntentStatus::Cancelled)
    } else {
        None
    }
}

/// A timestamp as the 64 bits of its two's complement.
pub open spec fn time_bits(time: i64) -> u64 {
    #[verifier::truncate]
    (time as u64)
}

/// The timestamp that 64 bits stand for.
pub open spec fn time_of_bits(bits: u64) -> i64 {
    #[verifier::truncate]
    (bits as i64)
}

/// An optional text in the layout.
pub open spec fn encode_category(category: Option<Seq<char>>) -> Seq<u8> {
    match category {
        Some(c) => seq![1u8] + encode_text(c),
        None => seq![0u8],
    }
}

/// The optional category that stands at `at` in `data`, and the place behind it.
pub open spec fn decode_category_at(data: Seq<u8>, at: int) -> Option<(Option<Seq<char>>, int)> {
    if 0 <= at < data.len() {
        if data[at] == 0 {
            Some((None, at + 1))
        } else if data[at] == 1 {
            match decode_text_at(data, at + 1, MAX_CATEGORY_LEN as int) {
                Some((c, end)) => Some((Some(c), end)),
                None => None,
            }
        } else {
            None
        }
    } else {
        None
    }
}

/// The bytes of an intent.
pub open spec fn encode_intent(v: IntentView) -> Seq<u8> {
    v.agent + encode_text(v.title) + encode_text(v.description) + encode_category(v.category)
        + seq![intent_status_tag(v.status)] + spec_u64_to_le_bytes(time_bits(v.created_at))
        + seq![v.bump]
}

/// What stands behind the three texts of an intent: status, timestamp and bump seed.
pub open spec fn decode_intent_tail(
    data: Seq<u8>,
    title: Seq<char>,
    description: Seq<char>,
    category: Option<Seq<char>>,
    at: int,
) -> Option<IntentView> {
    if 0 <= at && at + 10 <= data.len() && data.len() >= 32 {
        match decode_intent_status(data[at]) {
            Some(status) => Some(
                IntentView {
                    agent: data.subrange(0, 32),
                    title,
                    description,
                    category,
                    status,
                    created_at: time_of_bits(spec_u64_from_le_bytes(data.subrange(at + 1, at + 9))),
                    bump: data[at + 9],
                },
            ),
            None => None,
        }
    } else {
        None
    }
}

/// The intent that stands at the front of `data`, if a whole one with every
/// text within its budget stands there.
pub open spec fn decode_intent(data: Seq<u8>) -> Option<IntentView> {
    if data.len() < 32 {
        None
    } else {
        match decode_text_at(data, 32, MAX_TITLE_LEN as int) {
            Some((title, after_title)) => match decode_text_at(
                data,
                after_title,
                MAX_DESCRIPTION_LEN as int,
            ) {
                Some((description, after_description)) => match decode_category_at(
                    data,
                    after_description,
                ) {
                    Some((category, after_category)) => decode_intent_tail(
                        data,
                        title,
                        description,
                        category,
                        after_category,
                    ),
                    None => None,
                },
                None => None,
            },
            None => None,
        }
    }
}

/// The bytes of a match.
pub open spec fn encode_match(v: MatchView) -> Seq<u8> {
    v.intent_a + v.intent_b + spec_u16_to_le_bytes(v.match_score) + seq![v.status.code_of()]
        + spec_u64_to_le_bytes(time_bits(v.created_at)) + spec_u64_to_le_bytes(time_bits(v.updated_at))
        + seq![v.bump]
}

/// The match that stands at the front of `data`, if a whole one stands there.
pub open spec fn decode_match(data: Seq<u8>) -> Option<MatchView> {
    if data.len() < 84 {
        None
    } else {
        match decode_status(data[66]) {
            Ok(status) => Some(
                MatchView {
                    intent_a: data.subrange(0, 32),
                    intent_b: data.subrange(32, 64),
                    match_score: spec_u16_from_le_bytes(data.subrange(64, 66)),
                    status,
                    created_at: time_of_bits(spec_u64_from_le_bytes(data.subrange(67, 75))),
                    updated_at: time_of_bits(spec_u64_from_le_bytes(data.subrange(75, 83))),
                    bump: data[83],
                },
            ),
            Err(_) => None,
        }
    }
}

/// Appends the bytes of an address to `out`.
fn write_address(out: &mut Vec<u8>, address: &Address)
    ensures
        final(out)@ == old(out)@ + address@,
{
    let mut bytes = slice_to_vec(address.bytes.as_slice());
    out.append(&mut bytes);
}

/// Appends a timestamp to `out`.
fn write_timestamp(out: &mut Vec<u8>, time: i64)
    ensures
        final(out)@ == old(out)@ + spec_u64_to_le_bytes(time_bits(time)),
{
    let mut bytes = u64_to_le_bytes(
        #[verifier::truncate]
        (time as u64),
    );
    out.append(&mut bytes);
}

/// Reads the address at `at`.
fn read_address(data: &[u8], at: usize) -> (address: Address)
    requires
        at + 32 <= data.len(),
    ensures
        address@ == data@.subrange(at as int, at + 32),
{
    let mut bytes: [u8; 32] = [0u8; 32];
    let mut i: usize = 0;
    while i < 32
        invariant
            i <= 32,
            at + 32 <= data.len(),
            forall|j: int| 0 <= j < i ==> bytes[j] == data@[at + j],
        decreases 32 - i,
    {
        bytes[i] = data[at + i];
        i += 1;
    }
    assert(bytes@ =~= data@.subrange(at as int, at + 32));
    Address { bytes }
}

/// Reads the timestamp at `at`.
fn read_timestamp(data: &[u8], at: usize) -> (time: i64)
    requires
        at + 8 <= data.len(),
    ensures
        time == time_of_bits(spec_u64_from_le_bytes(data@.subrange(at as int, at + 8))),
{
    let bits = u64_from_le_bytes(slice_subrange(data, at, at + 8));
    #[verifier::truncate]
    (bits as i64)
}

impl IntentStatus {
    /// The byte that stands for the status in a record.
    pub fn tag(&self) -> (tag: u8)
        ensures
            tag == intent_status_tag(*self),
            decode_intent_status(tag) == Some(*self),
    {
        match self {
            IntentStatus::Active => 0,
            IntentStatus::Fulfilled => 1,
            IntentStatus::Cancelled => 2,
        }
    }

    /// The status that a byte stands for; none for a byte above 2.
    pub fn from_tag(tag: u8) -> (status: Option<IntentStatus>)
        ensures
            status == decode_intent_status(tag),
    {
        match tag {
            0 => Some(IntentStatus::Active),
            1 => Some(IntentStatus::Fulfilled),
            2 => Some(IntentStatus::Cancelled),
            _ => None,
        }
    }
}

impl Intent {
    /// The bytes of the intent, at most `Intent::LEN` of them, from which the
    /// intent can be read again; none where a text is over its budget, for no
    /// text is ever cut short.
    pub fn to_bytes(&self) -> (bytes: Option<Vec<u8>>)
        ensures
            match bytes {
                Some(b) => {
                    &&& self.well_formed()
                    &&& b@ == encode_intent(self@)
                    &&& b@.len() <= Intent::LEN
                    &&& decode_intent(b@) == Some(self@)
                },
                None => !self.well_formed(),
            },
    {
        if !self.is_well_formed() {
            return None;
        }
        let mut out: Vec<u8> = Vec::new();
        write_address(&mut out, &self.agent);
        write_text(&mut out, &self.title);
        write_text(&mut out, &self.description);
        match &self.category {
            Some(c) => {
                out.push(1);
                write_text(&mut out, c);
            },
            None => {
                out.push(0);
            },
        }
        out.push(self.status.tag());
        write_timestamp(&mut out, self.created_at);
        out.push(self.bump);
        proof {
            lemma_intent_len(self@);
            assert(out@ =~= encode_intent(self@));
            lemma_intent_round_trip(self@, Seq::empty());
            assert(out@ + Seq::<u8>::empty() =~= out@);
        }
        Some(out)
    }

    /// Reads an intent from the front of `data`; none where no whole intent
    /// stands there, or one of its texts is over its budget or no UTF-8.
    pub fn from_bytes(data: &[u8]) -> (intent: Option<Intent>)
        ensures
            match intent {
                Some(i) => decode_intent(data@) == Some(i@) && i.well_formed(),
                None => decode_intent(data@) is None,
            },
    {
        if data.len() < 32 {
            return None;
        }
        let agent = read_address(data, 0);
        let (title, after_title) = match read_text(data, 32, MAX_TITLE_LEN) {
            Some(pair) => pair,
            None => {
                return None;
            },
        };
        let (description, after_description) = match read_text(
            data,
            after_title,
            MAX_DESCRIPTION_LEN,
        ) {
            Some(pair) => pair,
            None => {
                return None;
            },
        };
        if after_description >= data.len() {
            return None;
        }
        let flag = data[after_description];
        let (category, after_category) = if flag == 0 {
            (None, after_description + 1)
        } else if flag == 1 {
            match read_text(data, after_description + 1, MAX_CATEGORY_LEN) {
                Some(pair) => (Some(pair.0), pair.1),
                None => {
                    return None;
                },
            }
        } else {
            return None;
        };
        if data.len() - after_category < 10 {
            return None;
        }
        let status = match IntentStatus::from_tag(data[after_category]) {
            Some(status) => status,
            None => {
                return None;
            },
        };
        let created_at = read_timestamp(data, after_category + 1);
        let bump = data[after_category + 9];
        proof {
            lemma_decoded_text_len(data@, 32, MAX_TITLE_LEN as int, title@, after_title as int);
            lemma_decoded_text_len(
                data@,
                after_title as int,
                MAX_DESCRIPTION_LEN as int,
                description@,
                after_description as int,
            );
            if flag == 1 {
                lemma_decoded_text_len(
                    data@,
                    after_description + 1,
                    MAX_CATEGORY_LEN as int,
                    category->0@,
                    after_category as int,
                );
            }
        }
        Some(Intent { agent, title, description, category, status, created_at, bump })
    }
}

impl Match {
    /// The bytes of the match: always `Match::LEN` of them, from which the match
    /// can be read again.
    pub fn to_bytes(&self) -> (bytes: Vec<u8>)
        ensures
            bytes@ == encode_match(self@),
            bytes@.len() == Match::LEN,
            decode_match(bytes@) == Some(self@),
    {
        let mut out: Vec<u8> = Vec::new();
        write_address(&mut out, &self.intent_a);
        write_address(&mut out, &self.intent_b);
        let mut score = u16_to_le_bytes(self.match_score);
        out.append(&mut score);
        out.push(self.status.code());
        write_timestamp(&mut out, self.created_at);
        write_timestamp(&mut out, self.updated_at);
        out.push(self.bump);
        proof {
            lemma_auto_spec_u16_to_from_le_bytes();
            lemma_auto_spec_u64_to_from_le_bytes();
            assert(out@ =~= encode_match(self@));
            lemma_match_round_trip(self@, Seq::empty());
            assert(out@ + Seq::<u8>::empty() =~= out@);
        }
        out
    }

    /// Reads a match from the front of `data`; none where `data` is shorter than
    /// a match or the status byte stands for no status.
    pub fn from_bytes(data: &[u8]) -> (found: Option<Match>)
        ensures
            match found {
                Some(m) => decode_match(data@) == Some(m@),
                None => decode_match(data@) is None,
            },
    {
        if data.len() < Match::LEN {
            return None;
        }
        let status = match MatchStatus::from_code(data[66]) {
            Ok(status) => status,
            Err(_) => {
                return None;
            },
        };
        Some(
            Match {
                intent_a: read_address(data, 0),
                intent_b: read_address(data, 32),
                match_score: u16_from_le_bytes(slice_subrange(data, 64, 66)),
                status,
                created_at: read_timestamp(data, 67),
                updated_at: read_timestamp(data, 75),
                bump: data[83],
            },
        )
    }
}

/// A text that was decoded took no more bytes than its budget.
pub proof fn lemma_decoded_text_len(data: Seq<u8>, at: int, max: int, text: Seq<char>, end: int)
    requires
        decode_text_at(data, at, max) == Some((text, end)),
    ensures
        byte_len(text) <= max,
        end == at + 4 + byte_len(text),
{
    let len = spec_u32_from_le_bytes(data.subrange(at, at + 4)) as int;
    let bytes = data.subrange(at + 4, at + 4 + len);
    vstd::utf8::decode_utf8_encode_utf8(bytes);
}

/// The bytes of a well-formed intent fit the slot of `Intent::LEN` bytes.
pub proof fn lemma_intent_len(v: IntentView)
    requires
        v.well_formed(),
    ensures
        encode_intent(v).len() <= Intent::LEN,
{
    lemma_auto_spec_u32_to_from_le_bytes();
    lemma_auto_spec_u64_to_from_le_bytes();
}

/// A timestamp is the one that its 64 bits stand for.
pub proof fn lemma_time_bits_round_trip(time: i64)
    ensures
        time_of_bits(time_bits(time)) == time,
{
    assert(#[verifier::truncate] ((#[verifier::truncate] (time as u64)) as i64) == time)
        by (bit_vector);
}

/// Writing an intent and reading it again gives the same intent: decoding the
/// bytes of a well-formed intent, whatever follows them in the slot, yields every
/// field as it was, also where the texts fill their budgets.
pub proof fn lemma_intent_round_trip(v: IntentView, rest: Seq<u8>)
    requires
        v.well_formed(),
    ensures
        decode_intent(encode_intent(v) + rest) == Some(v),
{
    lemma_auto_spec_u32_to_from_le_bytes();
    lemma_auto_spec_u64_to_from_le_bytes();
    lemma_time_bits_round_trip(v.created_at);
    let title = encode_text(v.title);
    let description = encode_text(v.description);
    let category = encode_category(v.category);
    let time = spec_u64_to_le_bytes(time_bits(v.created_at));
    let data = encode_intent(v) + rest;
    let after_title: int = 32 + title.len() as int;
    let after_description: int = after_title + description.len();
    let after_category: int = after_description + category.len();

    assert(data.subrange(32, after_title) =~= title);
    lemma_text_round_trip(data, 32, v.title, MAX_TITLE_LEN as int);
    assert(data.subrange(after_title, after_description) =~= description);
    lemma_text_round_trip(data, after_title, v.description, MAX_DESCRIPTION_LEN as int);
    match v.category {
        Some(c) => {
            assert(data[after_description] == 1);
            assert(data.subrange(after_description + 1, after_category) =~= encode_text(c));
            lemma_text_round_trip(data, after_description + 1, c, MAX_CATEGORY_LEN as int);
        },
        None => {
            assert(data[after_description] == 0);
        },
    }
    assert(decode_category_at(data, after_description) == Some((v.category, after_category)));
    assert(data[after_category] == intent_status_tag(v.status));
    assert(data.subrange(after_category + 1, after_category + 9) =~= time);
    assert(data[after_category + 9] == v.bump);
    assert(data.subrange(0, 32) =~= v.agent);
}

/// Writing a match and reading it again gives the same match, whatever follows
/// its bytes in the slot.
pub proof fn lemma_match_round_trip(v: MatchView, rest: Seq<u8>)
    requires
        v.intent_a.len() == 32,
        v.intent_b.len() == 32,
    ensures
        decode_match(encode_match(v) + rest) == Some(v),
{
    lemma_auto_spec_u16_to_from_le_bytes();
    lemma_auto_spec_u64_to_from_le_bytes();
    lemma_time_bits_round_trip(v.created_at);
    lemma_time_bits_round_trip(v.updated_at);
    let data = encode_match(v) + rest;
    assert(data.subrange(0, 32) =~= v.intent_a);
    assert(data.subrange(32, 64) =~= v.intent_b);
    assert(data.subrange(64, 66) =~= spec_u16_to_le_bytes(v.match_score));
    assert(data[66] == v.status.code_of());
    assert(data.subrange(67, 75) =~= spec_u64_to_le_bytes(time_bits(v.created_at)));
    assert(data.subrange(75, 83) =~= spec_u64_to_le_bytes(time_bits(v.updated_at)));
    assert(data[83] == v.bump);
}

} // verus!
