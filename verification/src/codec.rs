//! Wire encoding of records and deltas, and its exact inverse.
//!
//! A record travels as one line-delimited text: a single state tag
//! character, the entity name, one `'\n'`, then the opaque payload (the
//! rest of the text, which may itself contain `'\n'`). A delta prefixes
//! the encoded record with the tag of the previous state. The name is the
//! only field that must not contain the delimiter; encoding rejects a
//! record whose name does.

use vstd::prelude::*;

use crate::reddit::Subreddit;
use crate::reddit::SubredditDelta;
use crate::reddit::SubredditDeltaView;
use crate::reddit::SubredditState;
use crate::reddit::SubredditView;
use crate::DecodeError;
use crate::EncodeError;

verus! {

/// Tag character standing for a state at the head of an encoded record
/// or delta.
pub open spec fn state_char(st: SubredditState) -> char {
    match st {
        SubredditState::UNKNOWN => 'u',
        SubredditState::PUBLIC => 'p',
        SubredditState::PRIVATE => 'v',
        SubredditState::BANNED => 'b',
    }
}

/// Inverse of `state_char`.
pub open spec fn char_state(c: char) -> Option<SubredditState> {
    if c == 'u' {
        Some(SubredditState::UNKNOWN)
    } else if c == 'p' {
        Some(SubredditState::PUBLIC)
    } else if c == 'v' {
        Some(SubredditState::PRIVATE)
    } else if c == 'b' {
        Some(SubredditState::BANNED)
    } else {
        None
    }
}

/// A record is encodable iff its name holds no delimiter. The payload is
/// the final, rest-of-text field and may hold anything.
pub open spec fn valid_record(s: SubredditView) -> bool {
    !s.name.contains('\n')
}

pub open spec fn valid_delta(d: SubredditDeltaView) -> bool {
    valid_record(d.subreddit)
}

/// Wire form of a record: state tag, name, delimiter, payload.
pub open spec fn encode_record_spec(s: SubredditView) -> Seq<char> {
    seq![state_char(s.state)] + s.name + seq!['\n'] + s.payload
}

/// Wire form of a delta: previous-state tag, then the encoded record.
pub open spec fn encode_delta_spec(d: SubredditDeltaView) -> Seq<char> {
    seq![state_char(d.prev_state)] + encode_record_spec(d.subreddit)
}

/// Index of the first delimiter at or after `i`, or `-1` if there is none.
pub open spec fn first_delim(t: Seq<char>, i: int) -> int
    decreases t.len() - i,
{
    if i < 0 || i >= t.len() {
        -1
    } else if t[i] == '\n' {
        i
    } else {
        first_delim(t, i + 1)
    }
}

pub proof fn lemma_first_delim(t: Seq<char>, i: int)
    requires
        0 <= i <= t.len(),
    ensures
        ({
            let r = first_delim(t, i);
            &&& r < 0 ==> r == -1 && (forall|j: int| i <= j < t.len() ==> t[j] != '\n')
            &&& r >= 0 ==> i <= r < t.len() && t[r] == '\n' && (forall|j: int|
                i <= j < r ==> t[j] != '\n')
        }),
    decreases t.len() - i,
{
    if i < t.len() && t[i] != '\n' {
        lemma_first_delim(t, i + 1);
    }
}

/// The first delimiter at or after `i` is at `k` iff `k` holds one and no
/// position from `i` up to `k` does.
pub proof fn lemma_first_delim_at(t: Seq<char>, i: int, k: int)
    requires
        0 <= i <= k < t.len(),
        t[k] == '\n',
        forall|j: int| i <= j < k ==> t[j] != '\n',
    ensures
        first_delim(t, i) == k,
    decreases k - i,
{
    if i < k {
        lemma_first_delim_at(t, i + 1, k);
    }
}

/// The unique record a text is the encoding of, if there is one.
pub open spec fn decode_record_spec(t: Seq<char>) -> Option<SubredditView> {
    if t.len() == 0 {
        None
    } else {
        match char_state(t[0]) {
            None => None,
            Some(st) => {
                let j = first_delim(t, 1);
                if j < 0 {
                    None
                } else {
                    Some(
                        SubredditView {
                            name: t.subrange(1, j),
                            state: st,
                            payload: t.subrange(j + 1, t.len() as int),
                        },
                    )
                }
            },
        }
    }
}

/// The unique delta a text is the encoding of, if there is one.
pub open spec fn decode_delta_spec(t: Seq<char>) -> Option<SubredditDeltaView> {
    if t.len() == 0 {
        None
    } else {
        match char_state(t[0]) {
            None => None,
            Some(prev) => match decode_record_spec(t.subrange(1, t.len() as int)) {
                None => None,
                Some(sub) => Some(SubredditDeltaView { prev_state: prev, subreddit: sub }),
            },
        }
    }
}

/// Which decode error a malformed record text gives.
pub open spec fn record_decode_err(t: Seq<char>) -> DecodeError {
    if t.len() == 0 {
        DecodeError::EmptyPayload
    } else if char_state(t[0]) is None {
        DecodeError::UnknownStateTag
    } else {
        DecodeError::MissingDelimiter
    }
}

/// Which decode error a malformed delta text gives.
pub open spec fn delta_decode_err(t: Seq<char>) -> DecodeError {
    if t.len() == 0 {
        DecodeError::EmptyPayload
    } else if char_state(t[0]) is None {
        DecodeError::UnknownStateTag
    } else {
        record_decode_err(t.subrange(1, t.len() as int))
    }
}

fn state_tag(st: SubredditState) -> (r: &'static str)
    ensures
        r@ == seq![state_char(st)],
{
    let r = match st {
        SubredditState::UNKNOWN => "u",
        SubredditState::PUBLIC => "p",
        SubredditState::PRIVATE => "v",
        SubredditState::BANNED => "b",
    };
    proof {
        reveal_strlit("u");
        reveal_strlit("p");
        reveal_strlit("v");
        reveal_strlit("b");
        assert(r@ =~= seq![state_char(st)]);
    }
    r
}

fn state_of_char(c: char) -> (r: Option<SubredditState>)
    ensures
        r == char_state(c),
{
    if c == 'u' {
        Some(SubredditState::UNKNOWN)
    } else if c == 'p' {
        Some(SubredditState::PUBLIC)
    } else if c == 'v' {
        Some(SubredditState::PRIVATE)
    } else if c == 'b' {
        Some(SubredditState::BANNED)
    } else {
        None
    }
}

/// Whether a text holds the field delimiter anywhere.
pub fn has_delim(s: &str) -> (b: bool)
    ensures
        b == s@.contains('\n'),
{
    let n = s.unicode_len();
    let mut i: usize = 0;
    while i < n
        invariant
            i <= n,
            n == s@.len(),
            forall|j: int| 0 <= j < i ==> s@[j] != '\n',
        decreases n - i,
    {
        if s.get_char(i) == '\n' {
            proof {
                assert(s@[i as int] == '\n');
            }
            return true;
        }
        i += 1;
    }
    proof {
        assert(!s@.contains('\n'));
    }
    false
}

/// Position of the first delimiter at or after `from`, if any.
pub(crate) fn find_delim(t: &str, from: usize) -> (r: Option<usize>)
    requires
        from <= t@.len(),
    ensures
        r matches Some(i) ==> from <= i && i < t@.len() && first_delim(t@, from as int) == i,
        r is None ==> first_delim(t@, from as int) == -1,
{
    let n = t.unicode_len();
    let mut i: usize = from;
    while i < n
        invariant
            from <= i <= n,
            n == t@.len(),
            forall|j: int| from <= j < i ==> t@[j] != '\n',
        decreases n - i,
    {
        if t.get_char(i) == '\n' {
            proof {
                lemma_first_delim_at(t@, from as int, i as int);
            }
            return Some(i);
        }
        i += 1;
    }
    proof {
        lemma_first_delim(t@, from as int);
    }
    None
}

/// Serializes a record to its wire text. Fails, with the name identified
/// as the offending field, iff the name holds the delimiter.
pub fn encode_subreddit(s: &Subreddit) -> (res: Result<String, EncodeError>)
    ensures
        res is Ok <==> valid_record(s@),
        res matches Ok(t) ==> t@ == encode_record_spec(s@),
        res is Err ==> res == Err::<String, EncodeError>(EncodeError::NameContainsDelimiter),
{
    if has_delim(s.name.as_str()) {
        return Err(EncodeError::NameContainsDelimiter);
    }
    let mut t = String::new();
    t.append(state_tag(s.state));
    t.append(s.name.as_str());
    proof {
        reveal_strlit("\n");
    }
    t.append("\n");
    t.append(s.payload.as_str());
    proof {
        assert(t@ =~= encode_record_spec(s@));
    }
    Ok(t)
}

/// Serializes a delta to its wire text. Fails iff the record does.
pub fn encode_delta(d: &SubredditDelta) -> (res: Result<String, EncodeError>)
    ensures
        res is Ok <==> valid_delta(d@),
        res matches Ok(t) ==> t@ == encode_delta_spec(d@),
        res is Err ==> res == Err::<String, EncodeError>(EncodeError::NameContainsDelimiter),
{
    match encode_subreddit(&d.subreddit) {
        Err(e) => Err(e),
        Ok(rec) => {
            let mut t = String::new();
            t.append(state_tag(d.prev_state));
            t.append(rec.as_str());
            proof {
                assert(t@ =~= encode_delta_spec(d@));
            }
            Ok(t)
        },
    }
}

/// Parses a record from its wire text: the inverse of `encode_subreddit`.
pub fn decode_subreddit(t: &str) -> (res: Result<Subreddit, DecodeError>)
    ensures
        res is Ok <==> decode_record_spec(t@) is Some,
        res matches Ok(s) ==> Some(s@) == decode_record_spec(t@) && valid_record(s@),
        res is Err ==> res == Err::<Subreddit, DecodeError>(record_decode_err(t@)),
{
    let n = t.unicode_len();
    if n == 0 {
        return Err(DecodeError::EmptyPayload);
    }
    let st = match state_of_char(t.get_char(0)) {
        None => {
            return Err(DecodeError::UnknownStateTag);
        },
        Some(st) => st,
    };
    match find_delim(t, 1) {
        None => Err(DecodeError::MissingDelimiter),
        Some(j) => {
            let name = t.substring_char(1, j).to_owned();
            let payload = t.substring_char(j + 1, n).to_owned();
            let s = Subreddit { name, state: st, payload };
            proof {
                lemma_first_delim(t@, 1);
                assert forall|k: int| 0 <= k < s@.name.len() implies s@.name[k] != '\n' by {
                    assert(s@.name[k] == t@[1 + k]);
                }
                assert(!s@.name.contains('\n'));
                assert(Some(s@) =~= decode_record_spec(t@));
            }
            Ok(s)
        },
    }
}

/// Parses a delta from its wire text: the inverse of `encode_delta`.
pub fn decode_delta(t: &str) -> (res: Result<SubredditDelta, DecodeError>)
    ensures
        res is Ok <==> decode_delta_spec(t@) is Some,
        res matches Ok(d) ==> Some(d@) == decode_delta_spec(t@) && valid_delta(d@),
        res is Err ==> res == Err::<SubredditDelta, DecodeError>(delta_decode_err(t@)),
{
    let n = t.unicode_len();
    if n == 0 {
        return Err(DecodeError::EmptyPayload);
    }
    let prev = match state_of_char(t.get_char(0)) {
        None => {
            return Err(DecodeError::UnknownStateTag);
        },
        Some(st) => st,
    };
    let rest = t.substring_char(1, n);
    match decode_subreddit(rest) {
        Err(e) => Err(e),
        Ok(sub) => {
            let d = SubredditDelta { prev_state: prev, subreddit: sub };
            proof {
                assert(Some(d@) =~= decode_delta_spec(t@));
            }
            Ok(d)
        },
    }
}

/// Law: the state tags are mutually inverse.
pub proof fn lemma_state_char_inverse(st: SubredditState)
    ensures
        char_state(state_char(st)) == Some(st),
{
}

/// Law: encoding a record and decoding the text yields the record back,
/// equal in every modeled field.
pub proof fn lemma_record_round_trip(s: SubredditView)
    requires
        valid_record(s),
    ensures
        decode_record_spec(encode_record_spec(s)) == Some(s),
{
    let t = encode_record_spec(s);
    let k = 1 + s.name.len() as int;
    assert(t[0] == state_char(s.state));
    assert(t[k] == '\n');
    assert forall|j: int| 1 <= j < k implies t[j] != '\n' by {
        assert(t[j] == s.name[j - 1]);
        if t[j] == '\n' {
            assert(s.name.contains('\n'));
        }
    }
    lemma_first_delim_at(t, 1, k);
    lemma_state_char_inverse(s.state);
    let d = decode_record_spec(t)->Some_0;
    assert(d.name =~= s.name);
    assert(d.payload =~= s.payload);
    assert(d =~= s);
}

/// Law: encoding a delta and decoding the text yields the delta back,
/// equal in every modeled field.
pub proof fn lemma_delta_round_trip(d: SubredditDeltaView)
    requires
        valid_delta(d),
    ensures
        decode_delta_spec(encode_delta_spec(d)) == Some(d),
{
    let t = encode_delta_spec(d);
    assert(t[0] == state_char(d.prev_state));
    lemma_state_char_inverse(d.prev_state);
    assert(t.subrange(1, t.len() as int) =~= encode_record_spec(d.subreddit));
    lemma_record_round_trip(d.subreddit);
    assert(decode_delta_spec(t)->Some_0 =~= d);
}

/// Decodes every stored record of the snapshot, strictly: one malformed
/// record aborts the whole read with the error of the first such record.
pub fn decode_records(values: &Vec<String>) -> (res: Result<Vec<Subreddit>, DecodeError>)
    ensures
        res is Ok <==> (forall|i: int|
            0 <= i < values@.len() ==> decode_record_spec(values@[i]@) is Some),
        res matches Ok(rs) ==> rs@.len() == values@.len() && (forall|i: int|
            0 <= i < values@.len() ==> Some(rs@[i]@) == decode_record_spec(values@[i]@)),
        res matches Err(e) ==> exists|i: int|
            0 <= i < values@.len() && decode_record_spec(values@[i]@) is None && e
                == record_decode_err(values@[i]@),
{
    let mut rs: Vec<Subreddit> = Vec::new();
    let mut i: usize = 0;
    while i < values.len()
        invariant
            i <= values@.len(),
            rs@.len() == i,
            forall|k: int| 0 <= k < i ==> Some(rs@[k]@) == decode_record_spec(values@[k]@),
        decreases values@.len() - i,
    {
        match decode_subreddit(values[i].as_str()) {
            Err(e) => {
                return Err(e);
            },
            Ok(s) => {
                rs.push(s);
            },
        }
        i += 1;
    }
    Ok(rs)
}

} // verus!
