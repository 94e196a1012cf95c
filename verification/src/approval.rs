//! The approval registry: pending tool-use approvals keyed by request id,
//! and the display description derived from a tool call.
//!
//! Each pending approval carries a token under which the caller keeps the
//! one-shot reply slot; the registry guarantees at most one pending entry
//! per request id.

use vstd::prelude::*;
use vstd::string::*;
use crate::jsonval::{field_str_of, json_get_str};
use crate::strutil::str_eq;

verus! {

broadcast use vstd::string::group_string_axioms;

/// What the server decided about one tool use.
#[derive(Debug, Clone)]
pub struct ApprovalResult {
    pub approved: bool,
    pub reason: Option<String>,
}

struct ApprovalEntry {
    request_id: String,
    token: u64,
}

/// The pending approvals, keyed by request id.
pub struct ApprovalRegistry {
    entries: Vec<ApprovalEntry>,
    next_token: u64,
}

/// The id an approval request travels under.
pub open spec fn request_id_spec(session_id: Seq<char>, tool_use_id: Seq<char>) -> Seq<char> {
    session_id + "-"@ + tool_use_id
}

/// Build the request id for a session's tool use.
pub fn request_id_of(session_id: &str, tool_use_id: &str) -> (r: String)
    ensures
        r@ == request_id_spec(session_id@, tool_use_id@),
{
    String::from_str(session_id).concat("-").concat(tool_use_id)
}

impl ApprovalRegistry {
    pub closed spec fn ids(&self) -> Seq<Seq<char>> {
        Seq::new(self.entries@.len(), |k: int| self.entries@[k].request_id@)
    }

    pub closed spec fn token_at(&self, k: int) -> u64 {
        self.entries@[k].token
    }

    /// At most one pending approval per request id.
    pub open spec fn wf(&self) -> bool {
        forall|i: int, j: int|
            0 <= i < j < self.ids().len() ==> #[trigger] self.ids()[i] != #[trigger] self.ids()[j]
    }

    pub open spec fn has_pending(&self, id: Seq<char>) -> bool {
        exists|k: int| 0 <= k < self.ids().len() && #[trigger] self.ids()[k] == id
    }

    /// No two distinct positions hold the same request id.
    pub proof fn lemma_at_most_one_pending(&self, id: Seq<char>, i: int, j: int)
        requires
            self.wf(),
            0 <= i < self.ids().len(),
            0 <= j < self.ids().len(),
            self.ids()[i] == id,
            self.ids()[j] == id,
        ensures
            i == j,
    {
    }

    /// An empty registry.
    pub fn new() -> (r: ApprovalRegistry)
        ensures
            r.wf(),
            r.ids().len() == 0,
    {
        let r = ApprovalRegistry { entries: Vec::new(), next_token: 0 };
        proof {
            assert(r.ids() =~= Seq::<Seq<char>>::empty());
        }
        r
    }

    /// How many approvals are pending.
    pub fn pending_count(&self) -> (n: usize)
        ensures
            n == self.ids().len(),
    {
        self.entries.len()
    }

    fn find(&self, request_id: &str) -> (r: Option<usize>)
        requires
            self.wf(),
        ensures
            match r {
                Some(k) => k < self.ids().len() && self.ids()[k as int] == request_id@,
                None => !self.has_pending(request_id@),
            },
    {
        let n = self.entries.len();
        proof {
            assert(self.ids().len() == n);
        }
        let mut k: usize = 0;
        while k < n
            invariant
                self.wf(),
                n == self.ids().len(),
                n == self.entries@.len(),
                k <= n,
                forall|j: int| 0 <= j < k ==> #[trigger] self.ids()[j] != request_id@,
            decreases n - k,
        {
            if str_eq(self.entries[k].request_id.as_str(), request_id) {
                proof {
                    assert(self.ids()[k as int] == request_id@);
                }
                return Some(k);
            }
            proof {
                assert(self.ids()[k as int] == self.entries@[k as int].request_id@);
            }
            k = k + 1;
        }
        None
    }

    /// Register a pending approval and hand back the token for its reply
    /// slot.  A pending entry under the same id is replaced, so the id
    /// stays unique.
    pub fn begin(&mut self, request_id: &str) -> (token: u64)
        requires
            old(self).wf(),
        ensures
            final(self).wf(),
            final(self).has_pending(request_id@),
            forall|k: int|
                0 <= k < final(self).ids().len() && #[trigger] final(self).ids()[k] == request_id@
                    ==> final(self).token_at(k) == token,
            final(self).ids().len() == old(self).ids().len() + (if old(self).has_pending(
                request_id@,
            ) {
                0int
            } else {
                1int
            }),
    {
        let found = self.find(request_id);
        let token = self.next_token;
        self.next_token = if self.next_token == u64::MAX {
            0
        } else {
            self.next_token + 1
        };
        let entry = ApprovalEntry { request_id: String::from_str(request_id), token };
        match found {
            Some(k) => {
                let ghost pre = self.entries@;
                self.entries.remove(k);
                self.entries.insert(k, entry);
                proof {
                    assert(self.entries@ =~= pre.update(k as int, self.entries@[k as int]));
                    assert forall|i: int| 0 <= i < self.ids().len() implies #[trigger] self.ids()[i]
                        == (if i == k {
                        request_id@
                    } else {
                        old(self).ids()[i]
                    }) by {}
                    assert(self.ids()[k as int] == request_id@);
                    assert forall|i: int|
                        0 <= i < self.ids().len() && #[trigger] self.ids()[i]
                            == request_id@ implies self.token_at(i) == token by {
                        if i != k {
                            assert(old(self).ids()[i] == request_id@);
                            assert(old(self).ids()[k as int] == request_id@);
                        }
                    }
                }
                token
            },
            None => {
                let ghost pre = self.entries@;
                self.entries.push(entry);
                proof {
                    let n = pre.len() as int;
                    assert forall|i: int| 0 <= i < self.ids().len() implies #[trigger] self.ids()[i]
                        == (if i == n {
                        request_id@
                    } else {
                        old(self).ids()[i]
                    }) by {}
                    assert(self.ids()[n] == request_id@);
                    assert forall|i: int|
                        0 <= i < self.ids().len() && #[trigger] self.ids()[i]
                            == request_id@ implies self.token_at(i) == token by {
                        if i != n {
                            assert(old(self).ids()[i] == request_id@);
                            assert(old(self).has_pending(request_id@));
                        }
                    }
                }
                token
            },
        }
    }

    /// Take a pending approval out — because its response arrived, its
    /// deadline passed, or the socket was lost.  Returns the reply-slot
    /// token when one was pending; `None` says the entry was already gone,
    /// and the caller reports the response as expired.
    pub fn take(&mut self, request_id: &str) -> (r: Option<u64>)
        requires
            old(self).wf(),
        ensures
            final(self).wf(),
            r is Some <==> old(self).has_pending(request_id@),
            !final(self).has_pending(request_id@),
            final(self).ids().len() == old(self).ids().len() - (if old(self).has_pending(
                request_id@,
            ) {
                1int
            } else {
                0int
            }),
    {
        let found = self.find(request_id);
        match found {
            Some(k) => {
                let entry = self.entries.remove(k);
                proof {
                    assert forall|i: int| 0 <= i < self.ids().len() implies #[trigger] self.ids()[i]
                        == (if i < k {
                        old(self).ids()[i]
                    } else {
                        old(self).ids()[i + 1]
                    }) by {}
                    if self.has_pending(request_id@) {
                        let j = choose|j: int|
                            0 <= j < self.ids().len() && #[trigger] self.ids()[j] == request_id@;
                        let pj = if j < k {
                            j
                        } else {
                            j + 1
                        };
                        old(self).lemma_at_most_one_pending(request_id@, pj, k as int);
                        assert(false);
                    }
                }
                Some(entry.token)
            },
            None => None,
        }
    }
}

// ---------------------------------------------------------------------------
// Tool-use descriptions.

/// The display line for a proposed tool use: well-known tools show their
/// verb and primary argument, anything else its name.
pub open spec fn describe_tool_spec(tool: Seq<char>, primary: Option<Seq<char>>) -> Seq<char> {
    let arg = match primary {
        Some(p) => p,
        None => "unknown"@,
    };
    if tool == "Bash"@ {
        "Execute: "@ + arg
    } else if tool == "Write"@ {
        "Write file: "@ + arg
    } else if tool == "Edit"@ {
        "Edit file: "@ + arg
    } else if tool == "Delete"@ {
        "Delete file: "@ + arg
    } else {
        "Call tool: "@ + tool
    }
}

/// The input field that names a well-known tool's primary argument.
pub open spec fn primary_key_spec(tool: Seq<char>) -> Option<Seq<char>> {
    if tool == "Bash"@ {
        Some("command"@)
    } else if tool == "Write"@ || tool == "Edit"@ || tool == "Delete"@ {
        Some("file_path"@)
    } else {
        None
    }
}

/// Select the input field that names a well-known tool's primary
/// argument.
pub fn primary_key_for(tool_name: &str) -> (r: Option<&'static str>)
    ensures
        match r {
            Some(k) => primary_key_spec(tool_name@) == Some(k@),
            None => primary_key_spec(tool_name@) is None,
        },
{
    proof {
        reveal_strlit("Bash");
        reveal_strlit("Write");
        reveal_strlit("Edit");
        reveal_strlit("Delete");
        assert("Bash"@[0] == 'B' && "Edit"@[0] == 'E');
        assert("Bash"@.len() == 4 && "Write"@.len() == 5 && "Delete"@.len() == 6);
    }
    if str_eq(tool_name, "Bash") {
        Some("command")
    } else if str_eq(tool_name, "Write") || str_eq(tool_name, "Edit") || str_eq(
        tool_name,
        "Delete",
    ) {
        Some("file_path")
    } else {
        None
    }
}

/// Render the description from the tool name and its extracted primary
/// argument.
pub fn approval_description(tool_name: &str, primary: Option<String>) -> (r: String)
    ensures
        primary matches Some(p) ==> r@ == describe_tool_spec(tool_name@, Some(p@)),
        primary is None ==> r@ == describe_tool_spec(tool_name@, None),
{
    let arg = match primary {
        Some(p) => p,
        None => String::from_str("unknown"),
    };
    if str_eq(tool_name, "Bash") {
        String::from_str("Execute: ").concat(arg.as_str())
    } else if str_eq(tool_name, "Write") {
        String::from_str("Write file: ").concat(arg.as_str())
    } else if str_eq(tool_name, "Edit") {
        String::from_str("Edit file: ").concat(arg.as_str())
    } else if str_eq(tool_name, "Delete") {
        String::from_str("Delete file: ").concat(arg.as_str())
    } else {
        String::from_str("Call tool: ").concat(tool_name)
    }
}

/// The primary argument a tool call's input carries, when the tool is a
/// well-known one and the field is a string.
pub open spec fn tool_primary_of(tool: Seq<char>, input: serde_json::Value) -> Option<Seq<char>> {
    match primary_key_spec(tool) {
        Some(k) => field_str_of(input, k),
        None => None,
    }
}

/// Derive the description straight from the tool's JSON input: the
/// description of the tool name with exactly the primary argument the
/// input carries.
pub fn format_tool_description(tool_name: &str, input: &serde_json::Value) -> (r: String)
    ensures
        r@ == describe_tool_spec(tool_name@, tool_primary_of(tool_name@, *input)),
{
    let primary = match primary_key_for(tool_name) {
        Some(key) => json_get_str(input, key),
        None => None,
    };
    approval_description(tool_name, primary)
}

} // verus!
