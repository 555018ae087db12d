//! Process metadata from raw kernel texts.
//!
//! A process's short name, argument vector and working-directory link are
//! each read elsewhere and may each be missing; this module states and
//! computes what record results, with the sentinel `"unknown"` standing
//! in for anything unreadable.  Building a record never fails.

use vstd::prelude::*;
use crate::records::ProcessInfo;
use crate::text::chars_of;
use crate::text::replace_nul;
use crate::text::replace_nul_exec;
use crate::text::string_from_chars;
use crate::text::trim_chars;
use crate::text::trim_spec;

verus! {

/// The view of an optional borrowed text.
pub open spec fn opt_text(o: Option<&str>) -> Option<Seq<char>> {
    match o {
        Option::Some(s) => Option::Some(s@),
        Option::None => Option::None,
    }
}

/// A text that could not be read degrades to the sentinel `"unknown"`.
pub open spec fn or_unknown(o: Option<Seq<char>>) -> Seq<char> {
    match o {
        Option::Some(t) => t,
        Option::None => "unknown"@,
    }
}

/// The display name a process gets from its short-name text.
pub open spec fn name_model(comm: Option<Seq<char>>) -> Seq<char> {
    trim_spec(or_unknown(comm))
}

/// The command a process gets from its argument-vector text: NUL
/// separators become spaces, the ends are trimmed, and an empty result
/// falls back to the display name.
pub open spec fn command_model(cmdline: Option<Seq<char>>, name: Seq<char>) -> Seq<char> {
    let c = trim_spec(replace_nul(or_unknown(cmdline)));
    if c.len() == 0 {
        name
    } else {
        c
    }
}

/// The working directory a process gets from its directory link.
pub open spec fn working_dir_model(cwd: Option<Seq<char>>) -> Seq<char> {
    or_unknown(cwd)
}

/// Builds the metadata record of process `pid` from whichever of its
/// three texts could be read.  Never fails: missing texts degrade to
/// sentinels as the model functions say.
pub fn build_process_info(pid: u32, comm: Option<&str>, cmdline: Option<&str>, cwd: Option<&str>) -> (r:
    ProcessInfo)
    ensures
        r@.pid == pid,
        r@.name == name_model(opt_text(comm)),
        r@.command == command_model(opt_text(cmdline), name_model(opt_text(comm))),
        r@.working_dir == working_dir_model(opt_text(cwd)),
{
    let comm_raw: &str = match comm {
        Option::Some(s) => s,
        Option::None => "unknown",
    };
    let name_chars = trim_chars(&chars_of(comm_raw));
    let name = string_from_chars(&name_chars);

    let cmd_raw: &str = match cmdline {
        Option::Some(s) => s,
        Option::None => "unknown",
    };
    let cmd_chars = trim_chars(&replace_nul_exec(&chars_of(cmd_raw)));
    let command = if cmd_chars.len() == 0 {
        name.clone()
    } else {
        string_from_chars(&cmd_chars)
    };

    let cwd_raw: &str = match cwd {
        Option::Some(s) => s,
        Option::None => "unknown",
    };
    let working_dir = string_from_chars(&chars_of(cwd_raw));

    ProcessInfo { pid, name, command, working_dir }
}

} // verus!
