//! The command router: free-form input lines become protocol operations.
//!
//! A line is split on whitespace; the first token, case-folded, names the
//! command. `ping` queues a keep-alive, `drop` drains the id pool, `rfs
//! list` asks for the volume table, and `rfs upload` takes exactly a target
//! directory and a local file. Anything else is reported and ignored.

use crate::hashing::str_eq;
use crate::text::{eq_ignore_ascii_case, spec_lower, spec_tokens, split_tokens};
use vstd::prelude::*;

verus! {

/// What an input line asks for.
#[derive(Debug, Clone, PartialEq, Eq)]
pub enum Command {
    /// The line held nothing.
    Empty,
    /// Queue one PING.
    Ping,
    /// Drain the message-id pool.
    Drop,
    /// Request the volume list.
    RfsList,
    /// Start an upload of `local_path` into the virtual `target_dir`.
    RfsUpload { target_dir: String, local_path: String },
    /// `rfs upload` without exactly two arguments.
    RfsUploadUsage,
    /// `rfs` with an unknown or missing subcommand.
    RfsUsage,
    /// An unknown command word.
    Unknown,
}

/// Whether the first token, case-folded, is the `rfs` command word.
pub open spec fn spec_is_rfs(ts: Seq<Seq<char>>) -> bool {
    ts.len() > 0 && spec_lower(ts[0]) == spec_lower("rfs"@)
}

/// Parses one input line into a command.
pub fn parse_command(input: &str) -> (r: Command)
    ensures
        ({
            let ts = spec_tokens(input@);
            &&& r == Command::Empty <==> ts.len() == 0
            &&& r == Command::Ping <==> (ts.len() > 0 && spec_lower(ts[0]) == spec_lower("ping"@))
            &&& r == Command::Drop <==> (ts.len() > 0 && spec_lower(ts[0]) == spec_lower("drop"@)
                && spec_lower(ts[0]) != spec_lower("ping"@))
            &&& r == Command::RfsList <==> (spec_is_rfs(ts) && spec_lower(ts[0]) != spec_lower(
                "ping"@,
            ) && spec_lower(ts[0]) != spec_lower("drop"@) && ts.len() >= 2 && ts[1] == "list"@)
            &&& r matches Command::RfsUpload { target_dir, local_path } ==> (spec_is_rfs(ts)
                && ts.len() == 4 && ts[1] == "upload"@ && target_dir@ == ts[2] && local_path@
                == ts[3])
            &&& (spec_is_rfs(ts) && spec_lower(ts[0]) != spec_lower("ping"@) && spec_lower(ts[0])
                != spec_lower("drop"@) && ts.len() >= 2 && ts[1] != "list"@ && ts[1] == "upload"@
                && ts.len() == 4) ==> (r matches Command::RfsUpload { .. })
            &&& r == Command::RfsUploadUsage <==> (spec_is_rfs(ts) && spec_lower(ts[0])
                != spec_lower("ping"@) && spec_lower(ts[0]) != spec_lower("drop"@) && ts.len() >= 2
                && ts[1] != "list"@ && ts[1] == "upload"@ && ts.len() != 4)
            &&& r == Command::RfsUsage <==> (spec_is_rfs(ts) && spec_lower(ts[0]) != spec_lower(
                "ping"@,
            ) && spec_lower(ts[0]) != spec_lower("drop"@) && (ts.len() < 2 || (ts[1] != "list"@
                && ts[1] != "upload"@)))
            &&& r == Command::Unknown <==> (ts.len() > 0 && spec_lower(ts[0]) != spec_lower(
                "ping"@,
            ) && spec_lower(ts[0]) != spec_lower("drop"@) && !spec_is_rfs(ts))
        }),
{
    let tokens = split_tokens(input);
    if tokens.len() == 0 {
        return Command::Empty;
    }
    proof {
        assert(crate::text::views_of(tokens@)[0] == tokens@[0]@);
    }
    let first = &tokens[0];
    if eq_ignore_ascii_case(first.as_str(), "ping") {
        Command::Ping
    } else if eq_ignore_ascii_case(first.as_str(), "drop") {
        Command::Drop
    } else if eq_ignore_ascii_case(first.as_str(), "rfs") {
        if tokens.len() < 2 {
            return Command::RfsUsage;
        }
        proof {
            assert(crate::text::views_of(tokens@)[1] == tokens@[1]@);
        }
        let sub = &tokens[1];
        if str_eq(sub.as_str(), "list") {
            Command::RfsList
        } else if str_eq(sub.as_str(), "upload") {
            if tokens.len() == 4 {
                proof {
                    assert(crate::text::views_of(tokens@)[2] == tokens@[2]@);
                    assert(crate::text::views_of(tokens@)[3] == tokens@[3]@);
                }
                let target_dir = tokens[2].clone();
                let local_path = tokens[3].clone();
                Command::RfsUpload { target_dir, local_path }
            } else {
                Command::RfsUploadUsage
            }
        } else {
            Command::RfsUsage
        }
    } else {
        Command::Unknown
    }
}

} // verus!
