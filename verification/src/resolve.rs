//! The join between the socket tables and the process table: given a
//! socket's inode, find the process whose open-descriptor links contain
//! a link of the exact form `socket:[<inode>]`.
//!
//! The scan is linear over the table, first match wins; a table in which
//! no process holds the inode resolves to nothing.

use vstd::prelude::*;
use crate::num::dec_parse;
use crate::num::parse_u32_dec;
use crate::records::EntryModel;
use crate::records::ProcessEntry;
use crate::records::ProcessInfo;
use crate::records::ProcessModel;
use crate::records::entry_models;
use crate::text::chars_of;
use crate::text::eq_str;
use crate::text::sub_chars;

verus! {

/// The inode a descriptor link points at, if the link has the exact form
/// `socket:[<digits>]`.
pub open spec fn link_inode(link: Seq<char>) -> Option<u32> {
    if link.len() >= 9 && link.subrange(0, 8) == "socket:["@ && link[link.len() - 1] == ']' {
        dec_parse(link.subrange(8, link.len() - 1))
    } else {
        Option::None
    }
}

/// Whether some link in the list points at socket inode `inode`.
pub open spec fn links_hold(links: Seq<Seq<char>>, inode: u32) -> bool {
    exists|k: int| 0 <= k < links.len() && #[trigger] link_inode(links[k]) == Option::Some(inode)
}

/// The metadata of the first process in the table holding socket inode
/// `inode`, scanning from position `i`.
pub open spec fn resolve_from(table: Seq<EntryModel>, inode: u32, i: int) -> Option<ProcessModel>
    decreases table.len() - i,
{
    if i < 0 || i >= table.len() {
        Option::None
    } else if links_hold(table[i].fd_links, inode) {
        Option::Some(table[i].info)
    } else {
        resolve_from(table, inode, i + 1)
    }
}

/// The metadata of the first process in the table holding socket inode
/// `inode`, or nothing when no process does.
pub open spec fn resolve_model(table: Seq<EntryModel>, inode: u32) -> Option<ProcessModel> {
    resolve_from(table, inode, 0)
}

/// When the scan finds a process, some link of it points at the inode;
/// when it finds none, no link anywhere in the table does.
pub proof fn lemma_resolve_from(table: Seq<EntryModel>, inode: u32, i: int)
    requires
        0 <= i <= table.len(),
    ensures
        resolve_from(table, inode, i) matches Option::Some(pm) ==> exists|j: int|
            i <= j < table.len() && #[trigger] links_hold(table[j].fd_links, inode) && pm
                == table[j].info,
        resolve_from(table, inode, i) is None ==> forall|j: int|
            i <= j < table.len() ==> !(#[trigger] links_hold(table[j].fd_links, inode)),
    decreases table.len() - i,
{
    if i < table.len() && !links_hold(table[i].fd_links, inode) {
        lemma_resolve_from(table, inode, i + 1);
    }
}

/// The resolver's law: a resolved process really holds a link reading
/// exactly `socket:[<inode>]`, and an unresolved inode is held by no
/// process in the table — never a partial or defaulted answer.
pub proof fn lemma_resolve_model(table: Seq<EntryModel>, inode: u32)
    ensures
        resolve_model(table, inode) matches Option::Some(pm) ==> exists|j: int|
            0 <= j < table.len() && #[trigger] links_hold(table[j].fd_links, inode) && pm
                == table[j].info,
        resolve_model(table, inode) is None ==> forall|j: int|
            0 <= j < table.len() ==> !(#[trigger] links_hold(table[j].fd_links, inode)),
{
    lemma_resolve_from(table, inode, 0);
}

/// Reads the inode out of a descriptor link of the form
/// `socket:[<digits>]`, as [`link_inode`] says.
pub fn parse_link_inode(link: &str) -> (r: Option<u32>)
    ensures
        r == link_inode(link@),
{
    let v = chars_of(link);
    if v.len() < 9 {
        return None;
    }
    let pre = sub_chars(&v, 0, 8);
    if !eq_str(&pre, "socket:[") {
        return None;
    }
    if v[v.len() - 1] != ']' {
        return None;
    }
    let middle = sub_chars(&v, 8, v.len() - 1);
    parse_u32_dec(&middle)
}

/// Scans the process table for the process owning socket inode
/// `target_inode`: the identifier and metadata of the first process one
/// of whose descriptor links reads exactly `socket:[<target_inode>]`,
/// or nothing in both positions when no process in the table has such a
/// link.
pub fn find_process_by_inode(target_inode: u32, table: &Vec<ProcessEntry>) -> (r: (
    Option<u32>,
    Option<ProcessInfo>,
))
    ensures
        resolve_model(entry_models(table@), target_inode) matches Option::Some(pm) ==> r.0
            == Option::Some(pm.pid) && (r.1 matches Option::Some(pi) && pi@ == pm),
        resolve_model(entry_models(table@), target_inode) is None ==> r.0 is None && r.1 is None,
{
    let ghost models = entry_models(table@);
    let mut i: usize = 0;
    while i < table.len()
        invariant
            models == entry_models(table@),
            i <= table@.len(),
            models.len() == table@.len(),
            resolve_model(models, target_inode) == resolve_from(models, target_inode, i as int),
        decreases table.len() - i,
    {
        proof {
            assert(models[i as int] == table@[i as int]@);
        }
        let entry = &table[i];
        let mut k: usize = 0;
        while k < entry.fd_links.len()
            invariant
                models == entry_models(table@),
                i < table@.len(),
                models.len() == table@.len(),
                models[i as int] == table@[i as int]@,
                *entry == table@[i as int],
                resolve_model(models, target_inode) == resolve_from(
                    models,
                    target_inode,
                    i as int,
                ),
                k <= entry.fd_links@.len(),
                forall|t: int|
                    0 <= t < k ==> #[trigger] link_inode(models[i as int].fd_links[t])
                        != Option::Some(target_inode),
            decreases entry.fd_links.len() - k,
        {
            proof {
                assert(models[i as int].fd_links[k as int] == entry.fd_links@[k as int]@);
            }
            match parse_link_inode(entry.fd_links[k].as_str()) {
                Some(inode) => {
                    if inode == target_inode {
                        proof {
                            assert(links_hold(models[i as int].fd_links, target_inode));
                        }
                        return (Some(entry.info.pid), Some(entry.info.clone()));
                    }
                },
                None => {},
            }
            k += 1;
        }
        proof {
            assert(!links_hold(models[i as int].fd_links, target_inode));
        }
        i += 1;
    }
    (None, None)
}

} // verus!
