//! Text filtering over finished port records, and the column
//! truncation the table renderer asks for.
//!
//! Matching is case-insensitive: both the filter text and the searched
//! fields are case-folded before the substring test.  The folding is the
//! standard library's; the substring test is the library's own, verified
//! [`contains_seq`].

use vstd::prelude::*;
use vstd::string::StrSliceExecFns;
use vstd::string::StringExecFns;
use crate::records::PortInfo;
use crate::records::PortModel;
use crate::records::port_models;
use crate::text::contains_seq;
use crate::text::contains_str;

verus! {

/// What `str::to_lowercase` returns: a function of the characters alone.
pub uninterp spec fn lower_of(s: Seq<char>) -> Seq<char>;

/// Relies on str::to_lowercase: the case-folded equivalent of `s`,
/// depending on the characters alone; an empty string stays empty.
#[verifier::external_body]
fn lowercase(s: &str) -> (r: String)
    ensures
        r@ == lower_of(s@),
        s@.len() == 0 ==> r@.len() == 0,
{
    s.to_lowercase()
}

/// Whether a record matches the case-folded filter text `q`: `q` occurs
/// in the folded process name, command, or working directory.
pub open spec fn entry_matches(pm: PortModel, q: Seq<char>) -> bool {
    contains_seq(lower_of(pm.process_name), q) || contains_seq(lower_of(pm.command), q)
        || contains_seq(lower_of(pm.working_dir), q)
}

/// The records matching the case-folded filter text `q`, in order.
pub open spec fn keep_matching(s: Seq<PortModel>, q: Seq<char>) -> Seq<PortModel> {
    s.filter(|pm: PortModel| entry_matches(pm, q))
}

/// The records not matching the case-folded filter text `q`, in order.
pub open spec fn drop_matching(s: Seq<PortModel>, q: Seq<char>) -> Seq<PortModel> {
    s.filter(|pm: PortModel| !entry_matches(pm, q))
}

/// Whether the record matches the already-folded text `q`, as
/// [`entry_matches`] says.  Takes the folded text as an argument, so the
/// substring logic is checked for every value of the folding.
pub fn record_matches(p: &PortInfo, q: &str) -> (r: bool)
    ensures
        r == entry_matches(p@, q@),
{
    let low_name = lowercase(p.process_name.as_str());
    if contains_str(low_name.as_str(), q) {
        return true;
    }
    let low_command = lowercase(p.command.as_str());
    if contains_str(low_command.as_str(), q) {
        return true;
    }
    let low_dir = lowercase(p.working_dir.as_str());
    contains_str(low_dir.as_str(), q)
}

/// Keeps the records whose process name, command or working directory
/// contains `filter_text`, ignoring case.
pub fn filter_ports(ports: Vec<PortInfo>, filter_text: &str) -> (r: Vec<PortInfo>)
    ensures
        port_models(r@) == keep_matching(port_models(ports@), lower_of(filter_text@)),
{
    let fl = lowercase(filter_text);
    let ghost q = lower_of(filter_text@);
    let mut out: Vec<PortInfo> = Vec::new();
    proof {
        reveal_with_fuel(Seq::<PortModel>::filter, 2);
        assert(port_models(ports@.subrange(0, 0)) =~= Seq::<PortModel>::empty());
        assert(port_models(out@) =~= Seq::<PortModel>::empty());
    }
    let mut i: usize = 0;
    while i < ports.len()
        invariant
            i <= ports@.len(),
            fl@ == q,
            port_models(out@) == keep_matching(port_models(ports@.subrange(0, i as int)), q),
        decreases ports.len() - i,
    {
        let keep = record_matches(&ports[i], fl.as_str());
        proof {
            reveal_with_fuel(Seq::<PortModel>::filter, 2);
            let a = port_models(ports@.subrange(0, i + 1 as int));
            assert(a.drop_last() =~= port_models(ports@.subrange(0, i as int)));
            assert(a.last() == ports@[i as int]@);
        }
        if keep {
            let ghost before = out@;
            out.push(ports[i].clone());
            proof {
                assert(port_models(out@) =~= port_models(before).push(ports@[i as int]@));
            }
        }
        i += 1;
    }
    proof {
        assert(ports@.subrange(0, ports@.len() as int) =~= ports@);
    }
    out
}

/// Drops the records whose process name, command or working directory
/// contains `exclude_text`, ignoring case.
pub fn exclude_ports(ports: Vec<PortInfo>, exclude_text: &str) -> (r: Vec<PortInfo>)
    ensures
        port_models(r@) == drop_matching(port_models(ports@), lower_of(exclude_text@)),
{
    let el = lowercase(exclude_text);
    let ghost q = lower_of(exclude_text@);
    let mut out: Vec<PortInfo> = Vec::new();
    proof {
        reveal_with_fuel(Seq::<PortModel>::filter, 2);
        assert(port_models(ports@.subrange(0, 0)) =~= Seq::<PortModel>::empty());
        assert(port_models(out@) =~= Seq::<PortModel>::empty());
    }
    let mut i: usize = 0;
    while i < ports.len()
        invariant
            i <= ports@.len(),
            el@ == q,
            port_models(out@) == drop_matching(port_models(ports@.subrange(0, i as int)), q),
        decreases ports.len() - i,
    {
        let matched = record_matches(&ports[i], el.as_str());
        proof {
            reveal_with_fuel(Seq::<PortModel>::filter, 2);
            let a = port_models(ports@.subrange(0, i + 1 as int));
            assert(a.drop_last() =~= port_models(ports@.subrange(0, i as int)));
            assert(a.last() == ports@[i as int]@);
        }
        if !matched {
            let ghost before = out@;
            out.push(ports[i].clone());
            proof {
                assert(port_models(out@) =~= port_models(before).push(ports@[i as int]@));
            }
        }
        i += 1;
    }
    proof {
        assert(ports@.subrange(0, ports@.len() as int) =~= ports@);
    }
    out
}

/// A string cut to at most `max_len` characters: a longer one keeps its
/// first `max_len - 3` characters (none when `max_len` is under three)
/// and ends in `...`.
pub open spec fn truncate_model(s: Seq<char>, max_len: nat) -> Seq<char> {
    if s.len() <= max_len {
        s
    } else {
        let keep: nat = if max_len >= 3 {
            (max_len - 3) as nat
        } else {
            0
        };
        s.subrange(0, keep as int) + "..."@
    }
}

/// Cuts `s` to at most `max_len` characters, marking the cut with `...`.
pub fn truncate_string(s: &str, max_len: usize) -> (r: String)
    ensures
        r@ == truncate_model(s@, max_len as nat),
{
    let n = s.unicode_len();
    if n <= max_len {
        String::from_str(s)
    } else {
        let keep: usize = if max_len >= 3 {
            max_len - 3
        } else {
            0
        };
        let head = s.substring_char(0, keep);
        let r = String::from_str(head).concat("...");
        r
    }
}

} // verus!
