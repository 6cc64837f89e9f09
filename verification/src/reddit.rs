//! Entity records, deltas, and the sanitized storage key.

use vstd::prelude::*;

verus! {

/// Lifecycle state of a monitored subreddit. `UNKNOWN` is the default
/// sentinel for an entity whose state was never observed.
#[allow(non_camel_case_types)]
#[derive(Clone, Copy, Debug, PartialEq, Eq, Structural)]
pub enum SubredditState {
    UNKNOWN,
    PUBLIC,
    PRIVATE,
    BANNED,
}

/// Full record of one monitored subreddit: its stable identifier, its
/// lifecycle state, and the remaining descriptive attributes, carried
/// through this module unchanged as one opaque text payload.
#[derive(Clone, Debug)]
pub struct Subreddit {
    pub name: String,
    pub state: SubredditState,
    pub payload: String,
}

/// One observed transition: the state before the change and the full
/// record after it (`subreddit.state` is the new state).
#[derive(Clone, Debug)]
pub struct SubredditDelta {
    pub prev_state: SubredditState,
    pub subreddit: Subreddit,
}

/// Mathematical model of a record: both text fields as character sequences.
#[verifier::ext_equal]
pub ghost struct SubredditView {
    pub name: Seq<char>,
    pub state: SubredditState,
    pub payload: Seq<char>,
}

/// Mathematical model of a delta.
#[verifier::ext_equal]
pub ghost struct SubredditDeltaView {
    pub prev_state: SubredditState,
    pub subreddit: SubredditView,
}

impl View for Subreddit {
    type V = SubredditView;

    open spec fn view(&self) -> SubredditView {
        SubredditView { name: self.name@, state: self.state, payload: self.payload@ }
    }
}

impl View for SubredditDelta {
    type V = SubredditDeltaView;

    open spec fn view(&self) -> SubredditDeltaView {
        SubredditDeltaView { prev_state: self.prev_state, subreddit: self.subreddit@ }
    }
}

/// Characters kept unchanged by the storage-key sanitization: ASCII
/// letters, digits, underscore and hyphen.
pub open spec fn keeps_safe_char(c: char) -> bool {
    ||| 'a' as u32 <= c as u32 && c as u32 <= 'z' as u32
    ||| 'A' as u32 <= c as u32 && c as u32 <= 'Z' as u32
    ||| '0' as u32 <= c as u32 && c as u32 <= '9' as u32
    ||| c == '_'
    ||| c == '-'
}

pub open spec fn safe_char(c: char) -> char {
    if keeps_safe_char(c) {
        c
    } else {
        '_'
    }
}

/// The sanitized form of a name, character by character.
pub open spec fn safe_name_of(s: Seq<char>) -> Seq<char>
    decreases s.len(),
{
    if s.len() == 0 {
        Seq::<char>::empty()
    } else {
        safe_name_of(s.drop_last()) + seq![safe_char(s.last())]
    }
}

fn is_safe_char(c: char) -> (b: bool)
    ensures
        b == keeps_safe_char(c),
{
    let u = c as u32;
    ('a' as u32 <= u && u <= 'z' as u32) || ('A' as u32 <= u && u <= 'Z' as u32) || ('0' as u32
        <= u && u <= '9' as u32) || c == '_' || c == '-'
}

impl Subreddit {
    /// Storage key for this record: the name with every character outside
    /// ASCII letters, digits, `_` and `-` replaced by `_`.
    pub fn safe_name(&self) -> (r: String)
        ensures
            r@ == safe_name_of(self.name@),
    {
        let s: &str = self.name.as_str();
        let n = s.unicode_len();
        let mut out = String::new();
        let mut i: usize = 0;
        while i < n
            invariant
                i <= n,
                n == s@.len(),
                s@ == self.name@,
                out@ =~= safe_name_of(s@.subrange(0, i as int)),
            decreases n - i,
        {
            let c = s.get_char(i);
            if is_safe_char(c) {
                let piece = s.substring_char(i, i + 1);
                out.append(piece);
            } else {
                proof {
                    reveal_strlit("_");
                }
                out.append("_");
            }
            proof {
                let pre = s@.subrange(0, i as int);
                let post = s@.subrange(0, i + 1 as int);
                assert(post.drop_last() =~= pre);
                assert(post.last() == s@[i as int]);
            }
            i += 1;
        }
        proof {
            assert(s@.subrange(0, n as int) =~= s@);
        }
        out
    }
}

} // verus!
