//! The environment checker: parses a comma-separated tool list into version
//! queries. Running a query's command and capturing its output is
//! input/output and lives with the caller; turning an outcome back into a
//! tool status is verified here.

use vstd::prelude::*;
use vstd::string::StringSliceAdditionalSpecFns;

use crate::text::find_byte;
use crate::text::find_byte_from;
use crate::text::lemma_find_byte;
use crate::text::spec_trim;
use crate::text::trim_range;

verus! {

/// What to run to query one tool's version.
pub struct ToolCommand {
    pub program: String,
    pub arg: String,
}

/// One parsed token of the tool list.
pub enum ToolQuery {
    /// A recognized tool: run this command to query its version.
    Run(ToolCommand),
    /// An unrecognized token, reported as not installed under its raw name.
    Unknown(Vec<u8>),
}

/// The reported status of one tool.
pub struct ToolStatus {
    pub name: String,
    pub installed: bool,
    pub version: Option<String>,
}

/// The comma-separated tokens of `s`: one more token than separators, so
/// empty text still holds one (empty) token.
pub open spec fn comma_tokens_from(s: Seq<u8>, i: int) -> Seq<Seq<u8>>
    decreases s.len() - i,
    via comma_tokens_from_decreases
{
    if i < 0 || i > s.len() {
        Seq::empty()
    } else {
        let e = find_byte(s, i, 44);
        let tok = s.subrange(i, e);
        if e < s.len() {
            seq![tok] + comma_tokens_from(s, e + 1)
        } else {
            seq![tok]
        }
    }
}

#[via_fn]
proof fn comma_tokens_from_decreases(s: Seq<u8>, i: int) {
    if 0 <= i && i <= s.len() {
        lemma_find_byte(s, i, 44);
    }
}

/// All comma-separated tokens of `s`.
pub open spec fn comma_tokens(s: Seq<u8>) -> Seq<Seq<u8>> {
    comma_tokens_from(s, 0)
}

/// Which version query a trimmed tool token calls for: the program to run,
/// or None for an unrecognized token.
pub open spec fn spec_tool_program(t: Seq<u8>) -> Option<Seq<char>> {
    if t == seq![103u8, 105u8, 116u8] {  // git
        Option::Some("git"@)
    } else if t == seq![114u8, 117u8, 115u8, 116u8] {  // rust
        Option::Some("rustc"@)
    } else if t == seq![110u8, 111u8, 100u8, 101u8] {  // node
        Option::Some("node"@)
    } else if t == seq![112u8, 121u8, 116u8, 104u8, 111u8, 110u8] {  // python
        Option::Some("python"@)
    } else {
        Option::None
    }
}

/// `q` is the right query for the raw token `tok`: recognized tools (after
/// trimming) get their version command, anything else keeps its raw name.
pub open spec fn query_matches(q: ToolQuery, tok: Seq<u8>) -> bool {
    match spec_tool_program(spec_trim(tok)) {
        Option::Some(p) => q matches ToolQuery::Run(c) && c.program@ == p && c.arg@
            == "--version"@,
        Option::None => q matches ToolQuery::Unknown(name) && name@ == tok,
    }
}

/// The environment checker, with the fixed recognized tool set.
pub struct EnvironmentChecker;

/// The query for one token, from the trimmed range `[ts, te)` of the raw
/// token `[from, to)`.
fn query_for_token(bytes: &[u8], from: usize, to: usize) -> (q: ToolQuery)
    requires
        from <= to <= bytes@.len(),
    ensures
        query_matches(q, bytes@.subrange(from as int, to as int)),
{
    let ghost tok = bytes@.subrange(from as int, to as int);
    let (ts, te) = trim_range(bytes, from, to);
    let ghost t = spec_trim(tok);
    assert(bytes@.subrange(ts as int, te as int) == t);
    let tl = te - ts;
    if tl == 3 && bytes[ts] == 103 && bytes[ts + 1] == 105 && bytes[ts + 2] == 116 {
        proof {
            assert(t =~= seq![103u8, 105u8, 116u8]);
        }
        ToolQuery::Run(ToolCommand { program: "git".to_owned(), arg: "--version".to_owned() })
    } else if tl == 4 && bytes[ts] == 114 && bytes[ts + 1] == 117 && bytes[ts + 2] == 115
        && bytes[ts + 3] == 116 {
        proof {
            assert(t =~= seq![114u8, 117u8, 115u8, 116u8]);
        }
        ToolQuery::Run(ToolCommand { program: "rustc".to_owned(), arg: "--version".to_owned() })
    } else if tl == 4 && bytes[ts] == 110 && bytes[ts + 1] == 111 && bytes[ts + 2] == 100
        && bytes[ts + 3] == 101 {
        proof {
            assert(t =~= seq![110u8, 111u8, 100u8, 101u8]);
        }
        ToolQuery::Run(ToolCommand { program: "node".to_owned(), arg: "--version".to_owned() })
    } else if tl == 6 && bytes[ts] == 112 && bytes[ts + 1] == 121 && bytes[ts + 2] == 116
        && bytes[ts + 3] == 104 && bytes[ts + 4] == 111 && bytes[ts + 5] == 110 {
        proof {
            assert(t =~= seq![112u8, 121u8, 116u8, 104u8, 111u8, 110u8]);
        }
        ToolQuery::Run(ToolCommand { program: "python".to_owned(), arg: "--version".to_owned() })
    } else {
        proof {
            if t == seq![103u8, 105u8, 116u8] {
                assert(t.len() == 3 && t[0] == 103 && t[1] == 105 && t[2] == 116);
            }
            if t == seq![114u8, 117u8, 115u8, 116u8] {
                assert(t.len() == 4 && t[0] == 114 && t[1] == 117 && t[2] == 115 && t[3] == 116);
            }
            if t == seq![110u8, 111u8, 100u8, 101u8] {
                assert(t.len() == 4 && t[0] == 110 && t[1] == 111 && t[2] == 100 && t[3] == 101);
            }
            if t == seq![112u8, 121u8, 116u8, 104u8, 111u8, 110u8] {
                assert(t.len() == 6 && t[0] == 112 && t[1] == 121 && t[2] == 116 && t[3] == 104
                    && t[4] == 111 && t[5] == 110);
            }
            assert(spec_tool_program(t) is None);
        }
        let raw = vstd::slice::slice_to_vec(vstd::slice::slice_subrange(bytes, from, to));
        ToolQuery::Unknown(raw)
    }
}

impl EnvironmentChecker {
    /// A checker with the fixed recognized tool set.
    pub fn new() -> (r: EnvironmentChecker) {
        EnvironmentChecker
    }

    /// Parse the comma-separated tool list into version queries: one query
    /// per token, in order.
    pub fn check_tools(&self, tools: &str) -> (r: Vec<ToolQuery>)
        ensures
            r@.len() == comma_tokens(tools.spec_bytes()).len(),
            forall|i: int|
                0 <= i < r@.len() ==> query_matches(
                    r@[i],
                    comma_tokens(tools.spec_bytes())[i],
                ),
    {
        let bytes = tools.as_bytes();
        let n = bytes.len();
        let mut out: Vec<ToolQuery> = Vec::new();
        let mut i: usize = 0;
        let mut more = true;
        while more
            invariant
                n == bytes@.len(),
                bytes@ == tools.spec_bytes(),
                more ==> i <= n,
                more ==> comma_tokens(bytes@).len() == out@.len() + comma_tokens_from(
                    bytes@,
                    i as int,
                ).len(),
                more ==> forall|k: int|
                    0 <= k < comma_tokens_from(bytes@, i as int).len()
                        ==> comma_tokens_from(bytes@, i as int)[k] == comma_tokens(
                        bytes@,
                    )[out@.len() + k],
                !more ==> out@.len() == comma_tokens(bytes@).len(),
                forall|k: int| 0 <= k < out@.len() ==> query_matches(
                    #[trigger] out@[k],
                    comma_tokens(bytes@)[k],
                ),
            decreases n - i + if more {
                1int
            } else {
                0int
            },
        {
            proof {
                lemma_find_byte(bytes@, i as int, 44);
            }
            let e = find_byte_from(bytes, i, 44);
            let q = query_for_token(bytes, i, e);
            proof {
                assert(comma_tokens_from(bytes@, i as int)[0] == bytes@.subrange(
                    i as int,
                    e as int,
                ));
            }
            out.push(q);
            proof {
                let s = bytes@;
                let gi = i as int;
                let ge = e as int;
                if e < n {
                    assert(comma_tokens_from(s, gi) == seq![s.subrange(gi, ge)]
                        + comma_tokens_from(s, ge + 1));
                    assert forall|k: int|
                        0 <= k < comma_tokens_from(s, ge + 1).len() implies #[trigger] comma_tokens_from(
                        s,
                        ge + 1,
                    )[k] == comma_tokens(s)[out@.len() + k] by {
                        assert(comma_tokens_from(s, gi)[k + 1] == comma_tokens_from(
                            s,
                            ge + 1,
                        )[k]);
                    }
                }
            }
            if e < n {
                i = e + 1;
            } else {
                more = false;
            }
        }
        out
    }

    /// The version query for git.
    pub fn check_git(&self) -> (r: ToolCommand)
        ensures
            r.program@ == "git"@,
            r.arg@ == "--version"@,
    {
        ToolCommand { program: "git".to_owned(), arg: "--version".to_owned() }
    }

    /// The version query for the rust compiler.
    pub fn check_rust(&self) -> (r: ToolCommand)
        ensures
            r.program@ == "rustc"@,
            r.arg@ == "--version"@,
    {
        ToolCommand { program: "rustc".to_owned(), arg: "--version".to_owned() }
    }

    /// The version query for node.
    pub fn check_node(&self) -> (r: ToolCommand)
        ensures
            r.program@ == "node"@,
            r.arg@ == "--version"@,
    {
        ToolCommand { program: "node".to_owned(), arg: "--version".to_owned() }
    }

    /// The version query for python.
    pub fn check_python(&self) -> (r: ToolCommand)
        ensures
            r.program@ == "python"@,
            r.arg@ == "--version"@,
    {
        ToolCommand { program: "python".to_owned(), arg: "--version".to_owned() }
    }
}

/// The status of a recognized tool from its command's outcome: `output` is
/// the captured standard output of a successful run, `None` a failed one.
pub fn command_status(command: &ToolCommand, output: Option<String>) -> (r: ToolStatus)
    ensures
        r.name@ == command.program@,
        r.installed == (output is Some),
        output matches Some(v) ==> r.version matches Some(w) && w@ == v@,
        output is None ==> r.version is None,
{
    match output {
        Some(v) => ToolStatus { name: command.program.clone(), installed: true, version: Some(v) },
        None => ToolStatus { name: command.program.clone(), installed: false, version: None },
    }
}

/// The status of an unrecognized tool token: not installed, no version.
pub fn unknown_status(name: String) -> (r: ToolStatus)
    ensures
        r.name@ == name@,
        !r.installed,
        r.version is None,
{
    ToolStatus { name, installed: false, version: None }
}

} // verus!
