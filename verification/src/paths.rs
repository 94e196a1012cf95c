//! Project-path codec and path-segment validation.
//!
//! A project path such as `/Users/xxx/project` is stored on disk under a
//! directory whose name replaces every `/` with `-`; decoding reverses the
//! substitution.

use vstd::prelude::*;
use vstd::string::*;
use crate::error::SocketError;
use crate::strutil::{push_char, seq_contains_char};

verus! {

pub open spec fn encode_char(c: char) -> char {
    if c == '/' { '-' } else { c }
}

pub open spec fn decode_char(c: char) -> char {
    if c == '-' { '/' } else { c }
}

/// The encoded directory name of a project path.
pub open spec fn encode_path_spec(s: Seq<char>) -> Seq<char> {
    s.map_values(|c: char| encode_char(c))
}

/// The project path read back from an encoded directory name.
pub open spec fn decode_path_spec(s: Seq<char>) -> Seq<char> {
    s.map_values(|c: char| decode_char(c))
}

/// Encode a project path as its on-disk directory name.
pub fn encode_path(path: &str) -> (r: String)
    ensures
        r@ == encode_path_spec(path@),
{
    let len = path.unicode_len();
    let mut out = String::new();
    let mut i: usize = 0;
    while i < len
        invariant
            len == path@.len(),
            i <= len,
            out@ == encode_path_spec(path@.subrange(0, i as int)),
        decreases len - i,
    {
        let c = path.get_char(i);
        if c == '/' {
            push_char(&mut out, '-');
        } else {
            push_char(&mut out, c);
        }
        proof {
            assert(path@.subrange(0, i + 1).drop_last() =~= path@.subrange(0, i as int));
            assert(out@ =~= encode_path_spec(path@.subrange(0, i + 1)));
        }
        i = i + 1;
    }
    proof {
        assert(path@.subrange(0, len as int) =~= path@);
    }
    out
}

/// Decode an on-disk directory name back into a project path.
pub fn decode_path(encoded: &str) -> (r: String)
    ensures
        r@ == decode_path_spec(encoded@),
{
    let len = encoded.unicode_len();
    let mut out = String::new();
    let mut i: usize = 0;
    while i < len
        invariant
            len == encoded@.len(),
            i <= len,
            out@ == decode_path_spec(encoded@.subrange(0, i as int)),
        decreases len - i,
    {
        let c = encoded.get_char(i);
        if c == '-' {
            push_char(&mut out, '/');
        } else {
            push_char(&mut out, c);
        }
        proof {
            assert(encoded@.subrange(0, i + 1).drop_last() =~= encoded@.subrange(0, i as int));
            assert(out@ =~= decode_path_spec(encoded@.subrange(0, i + 1)));
        }
        i = i + 1;
    }
    proof {
        assert(encoded@.subrange(0, len as int) =~= encoded@);
    }
    out
}

/// Decoding undoes encoding on every path that holds no `-`.
///
/// On a path that does hold a `-` the round trip turns it into a `/`:
/// `/a-b` encodes to `-a-b`, which decodes to `/a/b`.
pub proof fn lemma_decode_encode_identity(s: Seq<char>)
    requires
        !seq_contains_char(s, '-'),
    ensures
        decode_path_spec(encode_path_spec(s)) == s,
{
    let e = encode_path_spec(s);
    let d = decode_path_spec(e);
    assert forall|i: int| 0 <= i < s.len() implies d[i] == s[i] by {
        assert(s[i] != '-');
    }
    assert(d =~= s);
}

/// The characters after the last `/`; the whole string when it has none.
pub open spec fn after_last_slash(s: Seq<char>) -> Seq<char>
    decreases s.len(),
{
    if s.len() == 0 {
        s
    } else if s.last() == '/' {
        Seq::empty()
    } else {
        after_last_slash(s.drop_last()).push(s.last())
    }
}

/// Extract the project name: the final path segment.
pub fn extract_project_name(path: &str) -> (r: String)
    ensures
        r@ == after_last_slash(path@),
{
    let len = path.unicode_len();
    // The segment begins just after the last slash.
    let mut start: usize = 0;
    let mut k: usize = 0;
    while k < len
        invariant
            len == path@.len(),
            start <= k <= len,
            forall|j: int| start <= j < k ==> path@[j] != '/',
            start > 0 ==> path@[start - 1] == '/',
        decreases len - k,
    {
        if path.get_char(k) == '/' {
            start = k + 1;
        }
        k = k + 1;
    }
    let mut out = String::new();
    let mut i: usize = start;
    while i < len
        invariant
            len == path@.len(),
            start <= i <= len,
            forall|j: int| start <= j < len ==> path@[j] != '/',
            out@ == path@.subrange(start as int, i as int),
        decreases len - i,
    {
        push_char(&mut out, path.get_char(i));
        proof {
            assert(out@ =~= path@.subrange(start as int, i + 1));
        }
        i = i + 1;
    }
    proof {
        lemma_after_last_slash_from_cut(path@, start as int);
    }
    out
}

/// When everything from `cut` on is slash-free and either `cut` is zero or a
/// slash stands just before it, the tail from `cut` is the last segment.
proof fn lemma_after_last_slash_from_cut(s: Seq<char>, cut: int)
    requires
        0 <= cut <= s.len(),
        forall|j: int| cut <= j < s.len() ==> s[j] != '/',
        cut > 0 ==> s[cut - 1] == '/',
    ensures
        after_last_slash(s) == s.subrange(cut, s.len() as int),
    decreases s.len(),
{
    if s.len() == 0 {
        assert(s.subrange(0, 0) =~= s);
    } else if cut == s.len() {
        // The tail is empty: the last character is a slash.
        assert(s.last() == '/');
        assert(s.subrange(cut, s.len() as int) =~= Seq::<char>::empty());
    } else {
        assert(s.last() != '/');
        lemma_after_last_slash_from_cut(s.drop_last(), cut);
        assert(s.drop_last().subrange(cut, s.drop_last().len() as int)
            =~= s.subrange(cut, s.len() - 1));
        assert(s.subrange(cut, s.len() - 1).push(s.last())
            =~= s.subrange(cut, s.len() as int));
    }
}

/// The sequence with its trailing slashes removed.
pub open spec fn strip_trailing_slashes(s: Seq<char>) -> Seq<char>
    decreases s.len(),
{
    if s.len() > 0 && s.last() == '/' {
        strip_trailing_slashes(s.drop_last())
    } else {
        s
    }
}

/// The project name a path denotes: its last non-empty segment, or the
/// path itself when it has none.
pub open spec fn project_name_spec(s: Seq<char>) -> Seq<char> {
    if strip_trailing_slashes(s).len() == 0 {
        s
    } else {
        after_last_slash(strip_trailing_slashes(s))
    }
}

/// Everything from `cut` on is a slash, and either `cut` is zero or no
/// slash stands just before it: the stripped prefix ends at `cut`.
proof fn lemma_strip_at(s: Seq<char>, cut: int)
    requires
        0 <= cut <= s.len(),
        forall|j: int| cut <= j < s.len() ==> s[j] == '/',
        cut > 0 ==> s[cut - 1] != '/',
    ensures
        strip_trailing_slashes(s) == s.subrange(0, cut),
    decreases s.len(),
{
    if s.len() == 0 {
        assert(s.subrange(0, 0) =~= s);
    } else if cut == s.len() {
        assert(s.last() != '/');
        assert(s.subrange(0, cut) =~= s);
    } else {
        assert(s.last() == '/');
        lemma_strip_at(s.drop_last(), cut);
        assert(s.drop_last().subrange(0, cut) =~= s.subrange(0, cut));
    }
}

/// The display name of a project: the last non-empty path segment,
/// falling back to the whole path when every character is a slash.
pub fn project_name_of(path: &str) -> (r: String)
    ensures
        r@ == project_name_spec(path@),
{
    let len = path.unicode_len();
    // Skip the trailing slashes.
    let mut end: usize = len;
    while end > 0 && path.get_char(end - 1) == '/'
        invariant
            len == path@.len(),
            end <= len,
            forall|j: int| end <= j < len ==> path@[j] == '/',
        decreases end,
    {
        end = end - 1;
    }
    proof {
        lemma_strip_at(path@, end as int);
    }
    if end == 0 {
        return String::from_str(path);
    }
    // The segment begins just after the last slash before `end`.
    let mut start: usize = 0;
    let mut k: usize = 0;
    while k < end
        invariant
            len == path@.len(),
            end <= len,
            start <= k <= end,
            forall|j: int| start <= j < k ==> path@[j] != '/',
            start > 0 ==> path@[start - 1] == '/',
        decreases end - k,
    {
        if path.get_char(k) == '/' {
            start = k + 1;
        }
        k = k + 1;
    }
    let mut out = String::new();
    let mut i: usize = start;
    while i < end
        invariant
            len == path@.len(),
            start <= i <= end <= len,
            out@ == path@.subrange(start as int, i as int),
        decreases end - i,
    {
        push_char(&mut out, path.get_char(i));
        proof {
            assert(out@ =~= path@.subrange(start as int, i + 1));
        }
        i = i + 1;
    }
    proof {
        let stripped = path@.subrange(0, end as int);
        assert forall|j: int| start <= j < stripped.len() implies stripped[j] != '/' by {
            assert(stripped[j] == path@[j]);
        }
        if start > 0 {
            assert(stripped[start - 1] == path@[start - 1]);
        }
        lemma_after_last_slash_from_cut(stripped, start as int);
        assert(stripped.subrange(start as int, end as int) =~= path@.subrange(
            start as int,
            end as int,
        ));
    }
    out
}

/// Two consecutive dots anywhere in the sequence.
pub open spec fn has_dotdot(s: Seq<char>) -> bool {
    exists|i: int| 0 <= i && i + 1 < s.len() && #[trigger] s[i] == '.' && s[i + 1] == '.'
}

/// A string that is safe to use as a single path segment: non-empty, no
/// `..`, no leading `/`, no NUL byte.
pub open spec fn valid_path_component(s: Seq<char>) -> bool {
    &&& s.len() > 0
    &&& !has_dotdot(s)
    &&& s[0] != '/'
    &&& !seq_contains_char(s, '\0')
}

/// Reject identifiers that could escape their directory when used as a path
/// segment.
pub fn validate_path_component(s: &str, name: &str) -> (r: Result<(), SocketError>)
    ensures
        r is Ok <==> valid_path_component(s@),
        r matches Err(e) ==> e matches SocketError::InvalidInput(n) && n@ == name@,
{
    let len = s.unicode_len();
    if len == 0 {
        return Err(SocketError::InvalidInput(String::from_str(name)));
    }
    if s.get_char(0) == '/' {
        return Err(SocketError::InvalidInput(String::from_str(name)));
    }
    let mut i: usize = 0;
    while i < len
        invariant
            len == s@.len(),
            i <= len,
            forall|j: int| 0 <= j < i ==> s@[j] != '\0',
            forall|j: int| 0 <= j && j + 1 < len && j + 1 <= i ==>
                !(#[trigger] s@[j] == '.' && s@[j + 1] == '.'),
        decreases len - i,
    {
        let c = s.get_char(i);
        if c == '\0' {
            return Err(SocketError::InvalidInput(String::from_str(name)));
        }
        if c == '.' && i + 1 < len && s.get_char(i + 1) == '.' {
            return Err(SocketError::InvalidInput(String::from_str(name)));
        }
        i = i + 1;
    }
    Ok(())
}

} // verus!
