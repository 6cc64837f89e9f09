//! The delta publisher's eligibility policy and the apply pipeline.
//!
//! Both are decision logic: they compute what the shared store is told to
//! do — which key to upsert with which text, and whether (and with which
//! payload) to broadcast — while the caller performs the store traffic and
//! the rate-limited wait.

use vstd::prelude::*;

use crate::codec::encode_delta;
use crate::codec::encode_delta_spec;
use crate::codec::encode_record_spec;
use crate::codec::encode_subreddit;
use crate::codec::valid_delta;
use crate::codec::valid_record;
use crate::reddit::safe_name_of;
use crate::reddit::Subreddit;
use crate::reddit::SubredditDelta;
use crate::reddit::SubredditDeltaView;
use crate::reddit::SubredditState;
use crate::EncodeError;

verus! {

/// A delta is worth announcing: a real transition from a known state, or
/// a brand-new entity that is already private.
pub open spec fn eligible(d: SubredditDeltaView) -> bool {
    d.prev_state != SubredditState::UNKNOWN || d.subreddit.state == SubredditState::PRIVATE
}

/// `apply` broadcasts exactly when the state actually changed and the
/// delta is eligible.
pub open spec fn apply_publishes(d: SubredditDeltaView) -> bool {
    d.prev_state != d.subreddit.state && eligible(d)
}

/// The publisher's eligibility decision.
pub fn should_publish(d: &SubredditDelta) -> (b: bool)
    ensures
        b == eligible(d@),
{
    d.prev_state != SubredditState::UNKNOWN || (d.prev_state == SubredditState::UNKNOWN
        && d.subreddit.state == SubredditState::PRIVATE)
}

/// What the store write of one record consists of: the sanitized key and
/// the encoded value.
pub fn store_entry(s: &Subreddit) -> (res: Result<(String, String), EncodeError>)
    ensures
        res is Ok <==> valid_record(s@),
        res matches Ok(kv) ==> kv.0@ == safe_name_of(s@.name) && kv.1@ == encode_record_spec(s@),
        res is Err ==> res == Err::<(String, String), EncodeError>(
            EncodeError::NameContainsDelimiter,
        ),
{
    match encode_subreddit(s) {
        Err(e) => Err(e),
        Ok(v) => Ok((s.safe_name(), v)),
    }
}

/// One publisher call, decided: `Ok(Some(payload))` when the delta is
/// eligible and must go out on the topic after a rate-limited wait,
/// `Ok(None)` when it is suppressed (a silent success). Fails iff the
/// delta is eligible but cannot be serialized.
pub fn plan_publish(d: &SubredditDelta) -> (res: Result<Option<String>, EncodeError>)
    ensures
        res is Ok <==> (eligible(d@) ==> valid_delta(d@)),
        res matches Ok(m) ==> (m is Some <==> eligible(d@)),
        res matches Ok(m) ==> (m matches Some(t) ==> t@ == encode_delta_spec(d@)),
        res is Err ==> res == Err::<Option<String>, EncodeError>(
            EncodeError::NameContainsDelimiter,
        ),
{
    if should_publish(d) {
        match encode_delta(d) {
            Err(e) => Err(e),
            Ok(t) => Ok(Some(t)),
        }
    } else {
        Ok(None)
    }
}

/// Everything one `apply` call tells the store to do. The upsert always
/// happens, and happens first; the broadcast payload is present exactly
/// when the transition is notification-worthy.
pub struct ApplyPlan {
    pub key: String,
    pub value: String,
    pub publish_payload: Option<String>,
}

/// The apply pipeline, decided: unconditionally upsert the record under
/// its sanitized key, and broadcast the delta iff the state changed and
/// the delta is eligible. Fails iff the record cannot be serialized, in
/// which case nothing is to be done at all.
pub fn plan_apply(d: &SubredditDelta) -> (res: Result<ApplyPlan, EncodeError>)
    ensures
        res is Ok <==> valid_delta(d@),
        res matches Ok(p) ==> p.key@ == safe_name_of(d@.subreddit.name) && p.value@
            == encode_record_spec(d@.subreddit),
        res matches Ok(p) ==> (p.publish_payload is Some <==> apply_publishes(d@)),
        res matches Ok(p) ==> (p.publish_payload matches Some(m) ==> m@ == encode_delta_spec(d@)),
        res is Err ==> res == Err::<ApplyPlan, EncodeError>(EncodeError::NameContainsDelimiter),
{
    let (key, value) = match store_entry(&d.subreddit) {
        Err(e) => {
            return Err(e);
        },
        Ok(kv) => kv,
    };
    let publish_payload = if d.prev_state != d.subreddit.state {
        match plan_publish(d) {
            Err(e) => {
                return Err(e);
            },
            Ok(m) => m,
        }
    } else {
        None
    };
    Ok(ApplyPlan { key, value, publish_payload })
}

/// Law: a no-op transition (previous state equal to the new state) is
/// persisted but never broadcast.
pub proof fn lemma_noop_never_publishes(d: SubredditDeltaView)
    requires
        d.prev_state == d.subreddit.state,
    ensures
        !apply_publishes(d),
{
}

/// Law: a real transition from a known previous state is persisted and
/// broadcast exactly once.
pub proof fn lemma_known_transition_publishes(d: SubredditDeltaView)
    requires
        d.prev_state != SubredditState::UNKNOWN,
        d.prev_state != d.subreddit.state,
    ensures
        apply_publishes(d),
{
}

/// Law: a newly discovered entity (unknown previous state) is broadcast
/// iff it is already private; otherwise it is persisted silently.
pub proof fn lemma_new_entity_publish_iff_private(d: SubredditDeltaView)
    requires
        d.prev_state == SubredditState::UNKNOWN,
    ensures
        apply_publishes(d) <==> d.subreddit.state == SubredditState::PRIVATE,
{
}

} // verus!
