//! Session metrics: counts and totals derived from one parsed session.

use vstd::prelude::*;
use crate::timeutil::{parse_rfc3339_millis, rfc3339_epoch_millis};
use crate::types::{MessageKind, SessionMetrics};

verus! {

/// What the metrics need of one message: who sent it and how long it is.
#[derive(Debug, Clone)]
pub struct MessageStat {
    pub kind: MessageKind,
    pub content_len: usize,
}

/// How many of the messages a given sender wrote.
pub open spec fn count_kind(stats: Seq<MessageStat>, kind: MessageKind) -> nat
    decreases stats.len(),
{
    if stats.len() == 0 {
        0
    } else {
        count_kind(stats.drop_last(), kind) + (if stats.last().kind == kind {
            1nat
        } else {
            0nat
        })
    }
}

/// The summed content length.
pub open spec fn total_chars(stats: Seq<MessageStat>) -> nat
    decreases stats.len(),
{
    if stats.len() == 0 {
        0
    } else {
        total_chars(stats.drop_last()) + stats.last().content_len as nat
    }
}

/// The whole-second span between two timestamps, clamped at zero; known
/// only when both timestamps are.
pub open spec fn duration_secs_spec(first: Option<int>, last: Option<int>) -> Option<u64> {
    match (first, last) {
        (Some(f), Some(l)) => if l >= f {
            Some((((l - f) / 1000)) as u64)
        } else {
            Some(0u64)
        },
        _ => None,
    }
}

/// The epoch milliseconds a session boundary timestamp denotes, if it
/// parses.
pub open spec fn boundary_millis(ts: Option<&String>) -> Option<int> {
    match ts {
        Some(s) => rfc3339_epoch_millis(s@),
        None => None,
    }
}

/// Compute a session's metrics: the message counts per sender, a token
/// estimate of one token per four characters, and the session's span
/// between its boundary timestamps.
pub fn calculate_metrics(
    stats: &Vec<MessageStat>,
    created_at: Option<&String>,
    updated_at: Option<&String>,
) -> (r: SessionMetrics)
    requires
        total_chars(stats@) <= usize::MAX,
    ensures
        r.message_count == stats@.len(),
        r.user_message_count == count_kind(stats@, MessageKind::User),
        r.assistant_message_count == count_kind(stats@, MessageKind::Assistant),
        r.estimated_tokens == total_chars(stats@) / 4,
        r.duration_seconds == duration_secs_spec(
            boundary_millis(created_at),
            boundary_millis(updated_at),
        ),
{
    let n = stats.len();
    let mut users: usize = 0;
    let mut assistants: usize = 0;
    let mut chars: usize = 0;
    let mut i: usize = 0;
    proof {
        assert(stats@.subrange(0, 0) =~= Seq::<MessageStat>::empty());
    }
    while i < n
        invariant
            n == stats@.len(),
            i <= n,
            users == count_kind(stats@.subrange(0, i as int), MessageKind::User),
            assistants == count_kind(stats@.subrange(0, i as int), MessageKind::Assistant),
            chars == total_chars(stats@.subrange(0, i as int)),
            users <= i,
            assistants <= i,
            total_chars(stats@) <= usize::MAX,
        decreases n - i,
    {
        proof {
            assert(stats@.subrange(0, i + 1).drop_last() =~= stats@.subrange(0, i as int));
            assert(stats@.subrange(0, i + 1).last() == stats@[i as int]);
            lemma_total_chars_prefix(stats@, i + 1);
        }
        match stats[i].kind {
            MessageKind::User => {
                users = users + 1;
            },
            MessageKind::Assistant => {
                assistants = assistants + 1;
            },
        }
        chars = chars + stats[i].content_len;
        i = i + 1;
    }
    proof {
        assert(stats@.subrange(0, n as int) =~= stats@);
    }
    let created_ms = match created_at {
        Some(s) => parse_rfc3339_millis(s.as_str()),
        None => None,
    };
    let updated_ms = match updated_at {
        Some(s) => parse_rfc3339_millis(s.as_str()),
        None => None,
    };
    let duration: Option<u64> = match (created_ms, updated_ms) {
        (Some(f), Some(l)) => {
            if l >= f {
                let diff: u64 = ((l as i128) - (f as i128)) as u64;
                Some(diff / 1000)
            } else {
                Some(0)
            }
        },
        _ => None,
    };
    SessionMetrics {
        message_count: n,
        user_message_count: users,
        assistant_message_count: assistants,
        estimated_tokens: chars / 4,
        duration_seconds: duration,
    }
}

/// A prefix's summed length is bounded by the whole sequence's.
proof fn lemma_total_chars_prefix(stats: Seq<MessageStat>, k: int)
    requires
        0 <= k <= stats.len(),
    ensures
        total_chars(stats.subrange(0, k)) <= total_chars(stats),
    decreases stats.len() - k,
{
    if k == stats.len() {
        assert(stats.subrange(0, k) =~= stats);
    } else {
        lemma_total_chars_prefix(stats, k + 1);
        assert(stats.subrange(0, k + 1).drop_last() =~= stats.subrange(0, k));
    }
}

} // verus!
