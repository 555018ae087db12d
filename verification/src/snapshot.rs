//! The port snapshot builder: the two socket tables are parsed row by
//! row against one process table, the admitted records are put together,
//! and the result is sorted ascending by port.
//!
//! The sort is the stable insertion sort written out by
//! [`sort_by_port`]: records with equal ports keep their encounter
//! order, TCP rows before UDP rows.
//!
//! One socket table missing — a protocol disabled — contributes no
//! records.  Both missing means the scan itself was impossible: that is
//! the one fatal case, surfaced as [`ScanError::NoSocketTables`] and
//! kept distinct from a valid empty snapshot.

use vstd::prelude::*;
use vstd::seq_lib::lemma_multiset_commutative;
use crate::netparse::parse_line_model;
use crate::netparse::parse_net_line;
use crate::procs::opt_text;
use crate::records::EntryModel;
use crate::records::PortInfo;
use crate::records::PortModel;
use crate::records::ProcessEntry;
use crate::records::Protocol;
use crate::records::entry_models;
use crate::records::port_models;
use crate::text::chars_of;
use crate::text::split_lines;
use crate::text::split_lines_exec;
use crate::text::string_from_chars;
use crate::text::views_of;

verus! {

/// The one fatal failure of a scan: neither socket table was there to
/// read, so nothing could be observed at all.  An empty snapshot built
/// from tables that were read is a valid result, never this error.
#[derive(Clone, Copy, PartialEq, Eq, Structural, Debug)]
pub enum ScanError {
    NoSocketTables,
}

/// The records the rows of `lines` from position `i` on stand for, in
/// row order; a row that parses to nothing contributes nothing.
pub open spec fn records_from(
    lines: Seq<Seq<char>>,
    i: int,
    proto: Protocol,
    table: Seq<EntryModel>,
    localhost_only: bool,
    specific_port: Option<u16>,
) -> Seq<PortModel>
    decreases lines.len() - i,
{
    if i < 0 || i >= lines.len() {
        Seq::empty()
    } else {
        let rest = records_from(lines, i + 1, proto, table, localhost_only, specific_port);
        match parse_line_model(lines[i], proto, table, localhost_only, specific_port) {
            Option::Some(p) => seq![p] + rest,
            Option::None => rest,
        }
    }
}

/// The records one protocol's socket table stands for: every line after
/// the header row, in order.  A missing table stands for no records.
pub open spec fn table_records(
    content: Option<Seq<char>>,
    proto: Protocol,
    table: Seq<EntryModel>,
    localhost_only: bool,
    specific_port: Option<u16>,
) -> Seq<PortModel> {
    match content {
        Option::Some(s) => records_from(
            split_lines(s),
            1,
            proto,
            table,
            localhost_only,
            specific_port,
        ),
        Option::None => Seq::empty(),
    }
}

/// Whether the records are in ascending port order.
pub open spec fn sorted_by_port(s: Seq<PortModel>) -> bool {
    forall|i: int, j: int| 0 <= i < j < s.len() ==> s[i].port <= s[j].port
}

/// `p` inserted after every record whose port is at most `p.port`.
pub open spec fn insert_by_port(s: Seq<PortModel>, p: PortModel) -> Seq<PortModel>
    decreases s.len(),
{
    if s.len() == 0 {
        seq![p]
    } else if s[0].port <= p.port {
        seq![s[0]] + insert_by_port(s.drop_first(), p)
    } else {
        seq![p] + s
    }
}

/// Stable insertion sort by port: each record in turn is inserted after
/// the records already placed whose port is at most its own, so records
/// with equal ports keep their encounter order.
pub open spec fn sort_by_port(s: Seq<PortModel>) -> Seq<PortModel>
    decreases s.len(),
{
    if s.len() == 0 {
        Seq::empty()
    } else {
        insert_by_port(sort_by_port(s.drop_last()), s.last())
    }
}

/// Inserting a record at the position the exec scan finds is what
/// [`insert_by_port`] writes out.
proof fn lemma_insert_by_port_at(s: Seq<PortModel>, p: PortModel, j: int)
    requires
        0 <= j <= s.len(),
        forall|k: int| 0 <= k < j ==> s[k].port <= p.port,
        j < s.len() ==> s[j].port > p.port,
    ensures
        insert_by_port(s, p) == s.subrange(0, j) + seq![p] + s.subrange(j, s.len() as int),
    decreases j,
{
    if j == 0 {
        if s.len() == 0 {
            assert(insert_by_port(s, p) =~= s.subrange(0, 0) + seq![p] + s.subrange(0, 0));
        } else {
            assert(s[0].port > p.port);
            assert(insert_by_port(s, p) =~= s.subrange(0, 0) + seq![p] + s.subrange(
                0,
                s.len() as int,
            ));
        }
    } else {
        assert(s[0].port <= p.port);
        lemma_insert_by_port_at(s.drop_first(), p, j - 1);
        assert(s.drop_first().subrange(0, j - 1) =~= s.subrange(1, j));
        assert(s.drop_first().subrange(j - 1, s.drop_first().len() as int) =~= s.subrange(
            j,
            s.len() as int,
        ));
        assert(seq![s[0]] + (s.subrange(1, j) + seq![p] + s.subrange(j, s.len() as int)) =~= s
            .subrange(0, j) + seq![p] + s.subrange(j, s.len() as int));
    }
}

/// Inserting keeps sortedness and adds exactly the new record.
pub proof fn lemma_insert_by_port(s: Seq<PortModel>, p: PortModel)
    requires
        sorted_by_port(s),
    ensures
        sorted_by_port(insert_by_port(s, p)),
        insert_by_port(s, p).to_multiset() == s.to_multiset().insert(p),
        insert_by_port(s, p).len() == s.len() + 1,
        insert_by_port(s, p)[0].port == if s.len() > 0 && s[0].port <= p.port {
            s[0].port
        } else {
            p.port
        },
    decreases s.len(),
{
    broadcast use vstd::seq_lib::group_to_multiset_ensures;
    broadcast use vstd::multiset::group_multiset_axioms;

    if s.len() == 0 {
        assert(seq![p] =~= Seq::<PortModel>::empty().push(p));
        assert(insert_by_port(s, p).to_multiset() =~= s.to_multiset().insert(p));
    } else if s[0].port <= p.port {
        assert(sorted_by_port(s.drop_first()));
        lemma_insert_by_port(s.drop_first(), p);
        let t = insert_by_port(s.drop_first(), p);
        assert(s[0].port <= t[0].port) by {
            if s.drop_first().len() > 0 {
                assert(s.drop_first()[0] == s[1]);
                assert(s[0].port <= s[1].port);
            }
        }
        assert forall|i: int, j: int|
            0 <= i < j < (seq![s[0]] + t).len() implies (seq![s[0]] + t)[i].port <= (seq![s[0]]
            + t)[j].port by {
            if i > 0 {
                assert(t[i - 1].port <= t[j - 1].port);
            } else {
                if j - 1 > 0 {
                    assert(t[0].port <= t[j - 1].port);
                }
                assert(s[0].port <= t[j - 1].port);
            }
        }
        lemma_multiset_commutative(seq![s[0]], t);
        lemma_multiset_commutative(seq![s[0]], s.drop_first());
        assert(seq![s[0]] + s.drop_first() =~= s);
        assert(seq![s[0]] =~= Seq::<PortModel>::empty().push(s[0]));
        assert((seq![s[0]] + t).to_multiset() =~= s.to_multiset().insert(p));
    } else {
        assert forall|i: int, j: int|
            0 <= i < j < (seq![p] + s).len() implies (seq![p] + s)[i].port <= (seq![p]
            + s)[j].port by {
            if i > 0 {
                assert(s[i - 1].port <= s[j - 1].port);
            } else {
                if j - 1 > 0 {
                    assert(s[0].port <= s[j - 1].port);
                }
                assert(p.port <= s[j - 1].port);
            }
        }
        lemma_multiset_commutative(seq![p], s);
        assert(seq![p] =~= Seq::<PortModel>::empty().push(p));
        assert((seq![p] + s).to_multiset() =~= s.to_multiset().insert(p));
    }
}

/// The ordering law of the snapshot: sorting by port yields a sequence
/// in ascending port order that holds exactly the records given, no
/// more and no fewer.
pub proof fn lemma_sort_by_port(s: Seq<PortModel>)
    ensures
        sorted_by_port(sort_by_port(s)),
        sort_by_port(s).to_multiset() == s.to_multiset(),
        sort_by_port(s).len() == s.len(),
    decreases s.len(),
{
    broadcast use vstd::seq_lib::group_to_multiset_ensures;

    if s.len() > 0 {
        lemma_sort_by_port(s.drop_last());
        lemma_insert_by_port(sort_by_port(s.drop_last()), s.last());
        assert(s =~= s.drop_last().push(s.last()));
        assert(s.drop_last().push(s.last()).to_multiset() == s.drop_last().to_multiset().insert(
            s.last(),
        ));
    }
}

/// Inserts `x` after every record already placed whose port is at most
/// `x`'s own.
fn insert_record(out: &mut Vec<PortInfo>, x: PortInfo)
    ensures
        port_models(final(out)@) == insert_by_port(port_models(old(out)@), x@),
{
    let mut j: usize = 0;
    while j < out.len() && out[j].port <= x.port
        invariant
            *out == *old(out),
            j <= out@.len(),
            forall|k: int| 0 <= k < j ==> port_models(out@)[k].port <= x@.port,
        decreases out.len() - j,
    {
        proof {
            assert(port_models(out@)[j as int].port == out@[j as int].port);
        }
        j += 1;
    }
    proof {
        if j < out@.len() {
            assert(port_models(out@)[j as int].port == out@[j as int].port);
        }
        lemma_insert_by_port_at(port_models(out@), x@, j as int);
    }
    let ghost before = out@;
    out.insert(j, x);
    proof {
        assert(port_models(out@) =~= port_models(before).subrange(0, j as int) + seq![x@]
            + port_models(before).subrange(j as int, before.len() as int));
    }
}

/// Sorts the records ascending by port, stably, as [`sort_by_port`]
/// writes out.
fn sort_ports(v: &Vec<PortInfo>) -> (r: Vec<PortInfo>)
    ensures
        port_models(r@) == sort_by_port(port_models(v@)),
{
    let mut out: Vec<PortInfo> = Vec::new();
    let mut i: usize = 0;
    while i < v.len()
        invariant
            i <= v@.len(),
            port_models(out@) == sort_by_port(port_models(v@.subrange(0, i as int))),
        decreases v.len() - i,
    {
        let x = v[i].clone();
        insert_record(&mut out, x);
        proof {
            let pre = port_models(v@.subrange(0, i as int));
            let cur = port_models(v@.subrange(0, i + 1 as int));
            assert(cur.drop_last() =~= pre);
            assert(cur.last() == v@[i as int]@);
            assert(cur.len() > 0);
        }
        i += 1;
    }
    proof {
        assert(v@.subrange(0, v@.len() as int) =~= v@);
    }
    out
}

/// Parses one socket table line by line, the header row skipped, and
/// appends the admitted records in row order.
fn scan_table(
    out: &mut Vec<PortInfo>,
    content: &str,
    proto: Protocol,
    table: &Vec<ProcessEntry>,
    localhost_only: bool,
    specific_port: Option<u16>,
)
    ensures
        port_models(final(out)@) == port_models(old(out)@) + table_records(
            Option::Some(content@),
            proto,
            entry_models(table@),
            localhost_only,
            specific_port,
        ),
{
    let v = chars_of(content);
    let lines = split_lines_exec(&v);
    let ghost lv = split_lines(content@);
    proof {
        assert(views_of(lines@) == lv);
    }
    let mut i: usize = 1;
    while i < lines.len()
        invariant
            1 <= i,
            i <= lines@.len() || i == 1,
            lv == views_of(lines@),
            lv.len() == lines@.len(),
            port_models(old(out)@) + records_from(
                lv,
                1,
                proto,
                entry_models(table@),
                localhost_only,
                specific_port,
            ) == port_models(out@) + records_from(
                lv,
                i as int,
                proto,
                entry_models(table@),
                localhost_only,
                specific_port,
            ),
        decreases lines.len() - i,
    {
        proof {
            assert(lv[i as int] == lines@[i as int]@);
        }
        let line = string_from_chars(&lines[i]);
        match parse_net_line(line.as_str(), proto, table, localhost_only, specific_port) {
            Option::Some(rec) => {
                let ghost before = out@;
                out.push(rec);
                proof {
                    assert(port_models(out@) =~= port_models(before) + seq![rec@]);
                    assert(port_models(before) + (seq![rec@] + records_from(
                        lv,
                        i + 1 as int,
                        proto,
                        entry_models(table@),
                        localhost_only,
                        specific_port,
                    )) =~= port_models(out@) + records_from(
                        lv,
                        i + 1 as int,
                        proto,
                        entry_models(table@),
                        localhost_only,
                        specific_port,
                    ));
                }
            },
            Option::None => {},
        }
        i += 1;
    }
    proof {
        assert(records_from(
            lv,
            i as int,
            proto,
            entry_models(table@),
            localhost_only,
            specific_port,
        ) =~= Seq::<PortModel>::empty());
        assert(port_models(out@) + Seq::<PortModel>::empty() =~= port_models(out@));
    }
}

/// Builds one port snapshot: the TCP table's admitted records, then the
/// UDP table's, resolved against the process table and sorted ascending
/// by port.  One missing table contributes no records, and two tables
/// that were read but hold no admitted rows yield an empty list; only
/// when neither table exists is the scan impossible, and that — exactly
/// that — is the error.
pub fn get_open_ports(
    tcp_table: Option<&str>,
    udp_table: Option<&str>,
    table: &Vec<ProcessEntry>,
    localhost_only: bool,
    specific_port: Option<u16>,
) -> (r: Result<Vec<PortInfo>, ScanError>)
    ensures
        r is Err <==> tcp_table is None && udp_table is None,
        r matches Result::Err(e) ==> e == ScanError::NoSocketTables,
        r matches Result::Ok(v) ==> ({
            &&& port_models(v@) == sort_by_port(
                table_records(
                    opt_text(tcp_table),
                    Protocol::Tcp,
                    entry_models(table@),
                    localhost_only,
                    specific_port,
                ) + table_records(
                    opt_text(udp_table),
                    Protocol::Udp,
                    entry_models(table@),
                    localhost_only,
                    specific_port,
                ),
            )
            &&& sorted_by_port(port_models(v@))
            &&& port_models(v@).to_multiset() == (table_records(
                opt_text(tcp_table),
                Protocol::Tcp,
                entry_models(table@),
                localhost_only,
                specific_port,
            ) + table_records(
                opt_text(udp_table),
                Protocol::Udp,
                entry_models(table@),
                localhost_only,
                specific_port,
            )).to_multiset()
        }),
{
    let nothing_to_read = match (tcp_table, udp_table) {
        (Option::None, Option::None) => true,
        _ => false,
    };
    if nothing_to_read {
        return Result::Err(ScanError::NoSocketTables);
    }
    let mut recs: Vec<PortInfo> = Vec::new();
    let ghost tcp_recs = table_records(
        opt_text(tcp_table),
        Protocol::Tcp,
        entry_models(table@),
        localhost_only,
        specific_port,
    );
    let ghost udp_recs = table_records(
        opt_text(udp_table),
        Protocol::Udp,
        entry_models(table@),
        localhost_only,
        specific_port,
    );
    match tcp_table {
        Option::Some(content) => {
            scan_table(&mut recs, content, Protocol::Tcp, table, localhost_only, specific_port);
        },
        Option::None => {},
    }
    proof {
        assert(port_models(recs@) =~= tcp_recs);
    }
    match udp_table {
        Option::Some(content) => {
            scan_table(&mut recs, content, Protocol::Udp, table, localhost_only, specific_port);
        },
        Option::None => {},
    }
    proof {
        assert(port_models(recs@) =~= tcp_recs + udp_recs);
    }
    let r = sort_ports(&recs);
    proof {
        lemma_sort_by_port(tcp_recs + udp_recs);
    }
    Result::Ok(r)
}

} // verus!
