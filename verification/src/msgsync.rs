//! Persisting tailed records to the shared store: extracting the fields a
//! record carries and deciding what, if anything, to insert.

use vstd::prelude::*;
use vstd::string::*;
use crate::jsonval::{
    field_of, field_str_of, items_of, json_as_array, json_as_str, json_get, json_get_str,
    json_to_string, rendered_of, str_of,
};
use crate::strutil::{push_char, str_eq};
use crate::types::MessageKind;

verus! {

/// One message as the shared store takes it.
#[derive(Debug, Clone)]
pub struct MessageInput {
    pub uuid: String,
    pub kind: MessageKind,
    pub content: String,
    pub timestamp: i64,
    pub sequence: i64,
    pub source: Option<String>,
    pub channel: Option<String>,
    pub raw: Option<String>,
}

/// An ASCII decimal digit.
pub open spec fn is_dec_digit(c: char) -> bool {
    48 <= c as int <= 57
}

pub open spec fn all_dec_digits(s: Seq<char>) -> bool {
    forall|i: int| 0 <= i < s.len() ==> is_dec_digit(#[trigger] s[i])
}

/// The value of a digit string, most significant digit first.
pub open spec fn digits_value(s: Seq<char>) -> int
    decreases s.len(),
{
    if s.len() == 0 {
        0
    } else {
        digits_value(s.drop_last()) * 10 + (s.last() as int - 48)
    }
}

/// The integer a decimal string denotes — an optional sign, then at
/// least one ASCII digit, within `i64` range — or nothing.  This is the
/// documented behaviour of `str::parse::<i64>`.
pub open spec fn dec_i64_of(s: Seq<char>) -> Option<int> {
    let neg = s.len() > 0 && s[0] == '-';
    let digits = if s.len() > 0 && (s[0] == '-' || s[0] == '+') {
        s.drop_first()
    } else {
        s
    };
    if digits.len() > 0 && all_dec_digits(digits) {
        let v = if neg {
            -digits_value(digits)
        } else {
            digits_value(digits)
        };
        if i64::MIN <= v <= i64::MAX {
            Some(v)
        } else {
            None
        }
    } else {
        None
    }
}

proof fn lemma_digits_value_nonneg(s: Seq<char>)
    requires
        all_dec_digits(s),
    ensures
        digits_value(s) >= 0,
    decreases s.len(),
{
    if s.len() > 0 {
        assert(all_dec_digits(s.drop_last())) by {
            assert(forall|i: int|
                0 <= i < s.len() - 1 ==> is_dec_digit(#[trigger] s.drop_last()[i])
                    == is_dec_digit(s[i]));
        }
        lemma_digits_value_nonneg(s.drop_last());
    }
}

/// With every character a digit, extending the string never shrinks its
/// value.
proof fn lemma_digits_value_prefix_le(s: Seq<char>, k: int)
    requires
        all_dec_digits(s),
        0 <= k <= s.len(),
    ensures
        digits_value(s.subrange(0, k)) <= digits_value(s),
    decreases s.len() - k,
{
    if k == s.len() {
        assert(s.subrange(0, k) =~= s);
    } else {
        lemma_digits_value_prefix_le(s, k + 1);
        let p = s.subrange(0, k + 1);
        assert(p.drop_last() =~= s.subrange(0, k));
        assert(all_dec_digits(s.subrange(0, k))) by {
            assert(forall|i: int|
                0 <= i < k ==> is_dec_digit(#[trigger] s.subrange(0, k)[i]) == is_dec_digit(
                    s[i],
                ));
        }
        lemma_digits_value_nonneg(s.subrange(0, k));
        assert(digits_value(p) == digits_value(s.subrange(0, k)) * 10 + (s[k] as int - 48));
    }
}

/// Parse a decimal integer exactly as `str::parse::<i64>` does: an
/// optional sign, then ASCII digits, rejected when empty, malformed or
/// out of range.
pub fn parse_i64(s: &str) -> (r: Option<i64>)
    ensures
        r is Some <==> dec_i64_of(s@) is Some,
        r matches Some(v) ==> dec_i64_of(s@) == Some(v as int),
{
    let len = s.unicode_len();
    if len == 0 {
        return None;
    }
    let first = s.get_char(0);
    let neg = first == '-';
    let start: usize = if first == '-' || first == '+' {
        1
    } else {
        0
    };
    let ghost digits = if first == '-' || first == '+' {
        s@.drop_first()
    } else {
        s@
    };
    proof {
        assert(digits =~= s@.subrange(start as int, len as int));
    }
    if start >= len {
        // A sign with no digits.
        return None;
    }
    let mut acc: i128 = 0;
    let mut i: usize = start;
    proof {
        assert(digits.subrange(0, 0) =~= Seq::<char>::empty());
    }
    while i < len
        invariant
            start <= i <= len,
            len == s@.len(),
            start <= 1,
            start < len,
            (start == 1) == (s@[0] == '-' || s@[0] == '+'),
            neg == (s@[0] == '-'),
            digits =~= s@.subrange(start as int, len as int),
            all_dec_digits(digits.subrange(0, i - start)),
            acc == digits_value(digits.subrange(0, i - start)),
            0 <= acc <= i64::MAX as i128 + 1,
        decreases len - i,
    {
        let c = s.get_char(i);
        let code = c as u32;
        proof {
            assert(c as int == code as int);
        }
        if code < 48 || code > 57 {
            // Not a digit: the whole string is malformed.
            proof {
                assert(digits[i - start] == s@[i as int]);
                assert(!is_dec_digit(digits[i - start]));
                assert(!all_dec_digits(digits));
            }
            return None;
        }
        let next: i128 = acc * 10 + (code - 48) as i128;
        proof {
            let k = i - start;
            let p = digits.subrange(0, k + 1);
            assert(p.drop_last() =~= digits.subrange(0, k as int));
            assert(p.last() == s@[i as int]);
        }
        if next > i64::MAX as i128 + 1 {
            // Already past the representable range: whatever follows, the
            // value cannot come back down.
            proof {
                let k = i - start + 1;
                assert(digits_value(digits.subrange(0, k as int)) == next);
                if all_dec_digits(digits) {
                    lemma_digits_value_prefix_le(digits, k as int);
                    assert(digits_value(digits) >= next);
                    assert(digits_value(digits) > i64::MAX as int + 1);
                    if neg {
                        assert(-digits_value(digits) < i64::MIN as int);
                    } else {
                        assert(digits_value(digits) > i64::MAX as int);
                    }
                    let sd = if s@.len() > 0 && (s@[0] == '-' || s@[0] == '+') {
                        s@.drop_first()
                    } else {
                        s@
                    };
                    assert(s@.drop_first() =~= s@.subrange(1, s@.len() as int));
                    assert(s@.subrange(0, s@.len() as int) =~= s@);
                    assert(sd == digits);
                    assert(dec_i64_of(s@) is None);
                } else {
                    assert(dec_i64_of(s@) is None);
                }
            }
            return None;
        }
        acc = next;
        i = i + 1;
    }
    proof {
        assert(digits.subrange(0, len - start) =~= digits);
    }
    if neg {
        proof {
            assert(i64::MIN as int == -(i64::MAX as int) - 1);
        }
        Some((-acc) as i64)
    } else {
        if acc > i64::MAX as i128 {
            return None;
        }
        Some(acc as i64)
    }
}

// ---------------------------------------------------------------------------
// Joining content blocks.

/// The text blocks that are present, in order.
pub open spec fn kept_texts(parts: Seq<Option<String>>) -> Seq<Seq<char>>
    decreases parts.len(),
{
    if parts.len() == 0 {
        Seq::empty()
    } else {
        let rest = kept_texts(parts.drop_last());
        match parts.last() {
            Some(s) => rest.push(s@),
            None => rest,
        }
    }
}

/// The pieces joined with a newline between consecutive ones.
pub open spec fn joined(xs: Seq<Seq<char>>) -> Seq<char>
    decreases xs.len(),
{
    if xs.len() == 0 {
        Seq::empty()
    } else if xs.len() == 1 {
        xs[0]
    } else {
        joined(xs.drop_last()) + "\n"@ + xs.last()
    }
}

/// Join the present text blocks with newlines, as one content string.
pub fn join_texts(parts: &Vec<Option<String>>) -> (r: String)
    ensures
        r@ == joined(kept_texts(parts@)),
{
    let n = parts.len();
    let mut out = String::new();
    let mut any = false;
    let mut i: usize = 0;
    proof {
        assert(parts@.subrange(0, 0) =~= Seq::<Option<String>>::empty());
    }
    while i < n
        invariant
            n == parts@.len(),
            i <= n,
            any == (kept_texts(parts@.subrange(0, i as int)).len() > 0),
            out@ == joined(kept_texts(parts@.subrange(0, i as int))),
        decreases n - i,
    {
        proof {
            assert(parts@.subrange(0, i + 1).drop_last() =~= parts@.subrange(0, i as int));
            assert(parts@.subrange(0, i + 1).last() == parts@[i as int]);
        }
        match &parts[i] {
            Some(s) => {
                let ghost pre_kept = kept_texts(parts@.subrange(0, i as int));
                if any {
                    push_char(&mut out, '\n');
                    out.append(s.as_str());
                    proof {
                        let kept = kept_texts(parts@.subrange(0, i + 1));
                        assert(kept == pre_kept.push(parts@[i as int]->0@));
                        assert(kept.drop_last() =~= pre_kept);
                        reveal_strlit("\n");
                        assert("\n"@ =~= Seq::<char>::empty().push('\n'));
                        assert(out@ =~= joined(kept.drop_last()) + "\n"@ + kept.last());
                    }
                } else {
                    out = s.clone();
                    any = true;
                    proof {
                        let kept = kept_texts(parts@.subrange(0, i + 1));
                        assert(kept == pre_kept.push(parts@[i as int]->0@));
                        assert(pre_kept.len() == 0);
                        assert(kept.len() == 1);
                        assert(kept[0] == parts@[i as int]->0@);
                    }
                }
            },
            None => {},
        }
        i = i + 1;
    }
    proof {
        assert(parts@.subrange(0, n as int) =~= parts@);
    }
    out
}

// ---------------------------------------------------------------------------
// The insert decision.

/// What a record's timestamp becomes: the decimal value its `timestamp`
/// field carries, else the current wall clock.
pub open spec fn timestamp_decision(ts: Option<Seq<char>>, now_ms: i64) -> int {
    match ts {
        Some(s) => match dec_i64_of(s) {
            Some(v) => v,
            None => now_ms as int,
        },
        None => now_ms as int,
    }
}

/// The `text` fields present among a content array's items, in order.
pub open spec fn texts_of(items: Seq<serde_json::Value>) -> Seq<Seq<char>>
    decreases items.len(),
{
    if items.len() == 0 {
        Seq::empty()
    } else {
        let rest = texts_of(items.drop_last());
        match field_str_of(items.last(), "text"@) {
            Some(s) => rest.push(s),
            None => rest,
        }
    }
}

/// The content text a record carries: `message.content` as a string, or
/// the newline-join of its items' `text` fields when it is an array, or
/// empty.
pub open spec fn content_of(m: serde_json::Value) -> Seq<char> {
    match field_of(m, "message"@) {
        Some(inner) => match field_of(inner, "content"@) {
            Some(c) => match str_of(c) {
                Some(s) => s,
                None => match items_of(c) {
                    Some(items) => joined(texts_of(items)),
                    None => Seq::empty(),
                },
            },
            None => Seq::empty(),
        },
        None => Seq::empty(),
    }
}

/// Decide the shared-store insert for one record's extracted fields.  A
/// record without a uuid is skipped — those are system messages.  The
/// sender is the assistant exactly when the record says so; the timestamp
/// falls back to the wall clock when the field is missing or malformed.
/// The source tag names which collector wrote the record.
pub fn build_message_input(
    uuid: String,
    type_str: Option<&String>,
    content: String,
    timestamp_str: Option<&String>,
    raw: Option<String>,
    now_ms: i64,
    source_tag: &str,
) -> (r: Option<MessageInput>)
    ensures
        r is Some <==> uuid@.len() > 0,
        r matches Some(m) ==> {
            &&& m.uuid@ == uuid@
            &&& m.kind == (if type_str matches Some(t) && t@ == "assistant"@ {
                MessageKind::Assistant
            } else {
                MessageKind::User
            })
            &&& m.content@ == content@
            &&& m.timestamp as int == timestamp_decision(
                match timestamp_str {
                    Some(s) => Some(s@),
                    None => None,
                },
                now_ms,
            )
            &&& m.sequence == 0
            &&& m.source matches Some(s) && s@ == source_tag@
            &&& m.channel matches Some(c) && c@ == "code"@
            &&& (match (m.raw, raw) {
                (Some(a), Some(b)) => a@ == b@,
                (None, None) => true,
                _ => false,
            })
        },
{
    if uuid.as_str().unicode_len() == 0 {
        return None;
    }
    let kind = match type_str {
        Some(t) => if str_eq(t.as_str(), "assistant") {
            MessageKind::Assistant
        } else {
            MessageKind::User
        },
        None => MessageKind::User,
    };
    let timestamp: i64 = match timestamp_str {
        Some(s) => match parse_i64(s.as_str()) {
            Some(v) => v,
            None => now_ms,
        },
        None => now_ms,
    };
    Some(
        MessageInput {
            uuid,
            kind,
            content,
            timestamp,
            sequence: 0,
            source: Some(String::from_str(source_tag)),
            channel: Some(String::from_str("code")),
            raw,
        },
    )
}

/// Extract a record's fields through the opaque JSON value and decide the
/// insert: a record is skipped exactly when its `uuid` field is missing,
/// not a string, or empty; otherwise every stored field is the one the
/// record carries.
pub fn extract_message_input(message: &serde_json::Value, now_ms: i64, source_tag: &str) -> (r:
    Option<MessageInput>)
    ensures
        (r is Some) == (field_str_of(*message, "uuid"@) matches Some(u) && u.len() > 0),
        r matches Some(m) ==> {
            &&& field_str_of(*message, "uuid"@) == Some(m.uuid@)
            &&& m.kind == (if field_str_of(*message, "type"@) == Some("assistant"@) {
                MessageKind::Assistant
            } else {
                MessageKind::User
            })
            &&& m.content@ == content_of(*message)
            &&& m.timestamp as int == timestamp_decision(
                field_str_of(*message, "timestamp"@),
                now_ms,
            )
            &&& m.sequence == 0
            &&& m.source matches Some(s) && s@ == source_tag@
            &&& m.channel matches Some(c) && c@ == "code"@
            &&& m.raw matches Some(x) && x@ == rendered_of(*message)
        },
{
    let uuid = match json_get_str(message, "uuid") {
        Some(u) => u,
        None => String::new(),
    };
    let type_str = json_get_str(message, "type");
    let content: String = match json_get(message, "message") {
        Some(inner) => match json_get(inner, "content") {
            Some(c) => match json_as_str(c) {
                Some(s) => s,
                None => match json_as_array(c) {
                    Some(items) => {
                        let mut texts: Vec<Option<String>> = Vec::new();
                        let mut i: usize = 0;
                        let n = items.len();
                        proof {
                            assert(items@.subrange(0, 0) =~= Seq::<serde_json::Value>::empty());
                        }
                        while i < n
                            invariant
                                n == items@.len(),
                                i <= n,
                                kept_texts(texts@) == texts_of(items@.subrange(0, i as int)),
                            decreases n - i,
                        {
                            let ghost pre = texts@;
                            texts.push(json_get_str(&items[i], "text"));
                            proof {
                                assert(items@.subrange(0, i + 1).drop_last() =~= items@.subrange(
                                    0,
                                    i as int,
                                ));
                                assert(items@.subrange(0, i + 1).last() == items@[i as int]);
                                assert(texts@.drop_last() =~= pre);
                            }
                            i = i + 1;
                        }
                        proof {
                            assert(items@.subrange(0, n as int) =~= items@);
                        }
                        join_texts(&texts)
                    },
                    None => String::new(),
                },
            },
            None => String::new(),
        },
        None => String::new(),
    };
    let timestamp_str = json_get_str(message, "timestamp");
    let raw = Some(json_to_string(message));
    build_message_input(
        uuid,
        type_str.as_ref(),
        content,
        timestamp_str.as_ref(),
        raw,
        now_ms,
        source_tag,
    )
}

} // verus!
