//! The socket-table parser: one whitespace-delimited row of a kernel
//! per-protocol socket table in, at most one port record out.
//!
//! A row is dropped — never an error — when it is malformed (fewer than
//! ten fields, or a local-address field that is not `HEXADDR:HEXPORT`)
//! or when the admission policy rejects it: with the localhost filter
//! on, only addresses reading `127.0.0.1` or `0.0.0.0` pass; with a
//! specific port set, only that port passes; and a TCP row with no
//! specific port set passes only in the listening state.

use vstd::prelude::*;
use vstd::string::StringExecFns;
use crate::num::dec_chars;
use crate::num::dec_chars_exec;
use crate::num::dec_or_zero;
use crate::num::hex_or_zero;
use crate::num::parse_hex_capped;
use crate::num::parse_u32_dec;
use crate::records::EntryModel;
use crate::records::PortInfo;
use crate::records::PortModel;
use crate::records::ProcessEntry;
use crate::records::Protocol;
use crate::records::entry_models;
use crate::resolve::find_process_by_inode;
use crate::resolve::resolve_model;
use crate::text::chars_of;
use crate::text::count_char;
use crate::text::eq_str;
use crate::text::lemma_count_two;
use crate::text::split_fields;
use crate::text::split_fields_exec;
use crate::text::string_from_chars;
use crate::text::sub_chars;
use crate::text::views_of;

verus! {

/// The position of the colon in a local-address field that holds
/// exactly one.
pub open spec fn colon_pos(s: Seq<char>) -> int {
    choose|k: int| 0 <= k < s.len() && s[k] == ':'
}

/// Splits a local-address field at its colon, if it holds exactly one.
pub fn split_address(v: &Vec<char>) -> (r: Option<(Vec<char>, Vec<char>)>)
    ensures
        r is Some <==> count_char(v@, ':') == 1,
        r matches Option::Some(pair) ==> ({
            &&& 0 <= colon_pos(v@) < v@.len()
            &&& v@[colon_pos(v@)] == ':'
            &&& pair.0@ == v@.subrange(0, colon_pos(v@))
            &&& pair.1@ == v@.subrange(colon_pos(v@) + 1, v@.len() as int)
        }),
{
    let mut cnt: usize = 0;
    let mut first: usize = 0;
    let mut seen = false;
    let mut i: usize = 0;
    while i < v.len()
        invariant
            i <= v@.len(),
            cnt <= i,
            cnt as nat == count_char(v@.subrange(0, i as int), ':'),
            seen <==> cnt >= 1,
            seen ==> 0 <= first < i && v@[first as int] == ':',
        decreases v.len() - i,
    {
        proof {
            assert(v@.subrange(0, i + 1 as int).drop_last() =~= v@.subrange(0, i as int));
            assert(v@.subrange(0, i + 1 as int).last() == v@[i as int]);
        }
        if v[i] == ':' {
            if !seen {
                first = i;
                seen = true;
            }
            cnt += 1;
        }
        i += 1;
    }
    proof {
        assert(v@.subrange(0, v@.len() as int) =~= v@);
    }
    if cnt != 1 {
        return None;
    }
    proof {
        assert(v@[first as int] == ':');
        assert forall|t: int| 0 <= t < v@.len() && v@[t] == ':' implies t == first as int by {
            if t < first as int {
                lemma_count_two(v@, ':', t, first as int);
            } else if t > first as int {
                lemma_count_two(v@, ':', first as int, t);
            }
        }
        assert(v@[colon_pos(v@)] == ':' && 0 <= colon_pos(v@) < v@.len()) by {
            assert(0 <= (first as int) < v@.len() && v@[first as int] == ':');
        }
        assert(colon_pos(v@) == first as int);
    }
    let a = sub_chars(v, 0, first);
    let b = sub_chars(v, first + 1, v.len());
    Some((a, b))
}

/// The dotted-decimal writing of a 32-bit address held little-endian:
/// lowest byte first, each byte in decimal, joined with dots.
pub open spec fn ip_chars(addr: u32) -> Seq<char> {
    dec_chars((addr & 0xFF) as nat) + seq!['.'] + dec_chars(((addr >> 8) & 0xFF) as nat)
        + seq!['.'] + dec_chars(((addr >> 16) & 0xFF) as nat) + seq!['.'] + dec_chars(
        ((addr >> 24) & 0xFF) as nat,
    )
}

/// Writes `addr` in dotted decimal, lowest byte first.
pub fn ip_string(addr: u32) -> (r: Vec<char>)
    ensures
        r@ == ip_chars(addr),
{
    let mut r = dec_chars_exec(addr & 0xFF);
    r.push('.');
    let mut t = dec_chars_exec((addr >> 8) & 0xFF);
    r.append(&mut t);
    r.push('.');
    let mut t = dec_chars_exec((addr >> 16) & 0xFF);
    r.append(&mut t);
    r.push('.');
    let mut t = dec_chars_exec((addr >> 24) & 0xFF);
    r.append(&mut t);
    assert(r@ =~= ip_chars(addr));
    r
}

/// The label of a TCP connection-state code.
pub open spec fn tcp_state_chars(st: Seq<char>) -> Seq<char> {
    if st == "0A"@ {
        "LISTEN"@
    } else if st == "01"@ {
        "ESTABLISHED"@
    } else if st == "02"@ {
        "SYN_SENT"@
    } else if st == "03"@ {
        "SYN_RECV"@
    } else if st == "04"@ {
        "FIN_WAIT1"@
    } else if st == "05"@ {
        "FIN_WAIT2"@
    } else if st == "06"@ {
        "TIME_WAIT"@
    } else if st == "07"@ {
        "CLOSE"@
    } else if st == "08"@ {
        "CLOSE_WAIT"@
    } else if st == "09"@ {
        "LAST_ACK"@
    } else if st == "0B"@ {
        "CLOSING"@
    } else {
        "UNKNOWN"@
    }
}

/// The state label of a row: the TCP code's label, or `OPEN` for UDP,
/// which has no connection state.
pub open spec fn state_chars(proto: Protocol, st: Seq<char>) -> Seq<char> {
    match proto {
        Protocol::Tcp => tcp_state_chars(st),
        Protocol::Udp => "OPEN"@,
    }
}

/// The protocol label of a row.
pub open spec fn protocol_chars(proto: Protocol) -> Seq<char> {
    match proto {
        Protocol::Tcp => "TCP"@,
        Protocol::Udp => "UDP"@,
    }
}

fn state_label(proto: Protocol, st: &Vec<char>) -> (r: String)
    ensures
        r@ == state_chars(proto, st@),
{
    match proto {
        Protocol::Udp => String::from_str("OPEN"),
        Protocol::Tcp => {
            if eq_str(st, "0A") {
                String::from_str("LISTEN")
            } else if eq_str(st, "01") {
                String::from_str("ESTABLISHED")
            } else if eq_str(st, "02") {
                String::from_str("SYN_SENT")
            } else if eq_str(st, "03") {
                String::from_str("SYN_RECV")
            } else if eq_str(st, "04") {
                String::from_str("FIN_WAIT1")
            } else if eq_str(st, "05") {
                String::from_str("FIN_WAIT2")
            } else if eq_str(st, "06") {
                String::from_str("TIME_WAIT")
            } else if eq_str(st, "07") {
                String::from_str("CLOSE")
            } else if eq_str(st, "08") {
                String::from_str("CLOSE_WAIT")
            } else if eq_str(st, "09") {
                String::from_str("LAST_ACK")
            } else if eq_str(st, "0B") {
                String::from_str("CLOSING")
            } else {
                String::from_str("UNKNOWN")
            }
        },
    }
}

/// The record one socket-table row stands for, or nothing when the row
/// is malformed or the admission policy drops it.
pub open spec fn parse_line_model(
    line: Seq<char>,
    proto: Protocol,
    table: Seq<EntryModel>,
    localhost_only: bool,
    specific_port: Option<u16>,
) -> Option<PortModel> {
    let fs = split_fields(line);
    if fs.len() < 10 {
        Option::None
    } else if count_char(fs[1], ':') != 1 {
        Option::None
    } else {
        let hexaddr = fs[1].subrange(0, colon_pos(fs[1]));
        let hexport = fs[1].subrange(colon_pos(fs[1]) + 1, fs[1].len() as int);
        let port = hex_or_zero(hexport, 0xFFFF) as u16;
        let addr = hex_or_zero(hexaddr, 0xFFFFFFFF) as u32;
        let ip = ip_chars(addr);
        if localhost_only && ip != "127.0.0.1"@ && ip != "0.0.0.0"@ {
            Option::None
        } else if specific_port matches Option::Some(tp) && port != tp {
            Option::None
        } else if proto is Tcp && fs[3] != "0A"@ && specific_port is None {
            Option::None
        } else {
            let inode = dec_or_zero(fs[9]);
            let owner = if inode > 0 {
                resolve_model(table, inode)
            } else {
                Option::None
            };
            Option::Some(
                PortModel {
                    port: port,
                    protocol: protocol_chars(proto),
                    state: state_chars(proto, fs[3]),
                    pid: match owner {
                        Option::Some(pm) => dec_chars(pm.pid as nat),
                        Option::None => "-"@,
                    },
                    process_name: match owner {
                        Option::Some(pm) => pm.name,
                        Option::None => "-"@,
                    },
                    command: match owner {
                        Option::Some(pm) => pm.command,
                        Option::None => "-"@,
                    },
                    working_dir: match owner {
                        Option::Some(pm) => pm.working_dir,
                        Option::None => "-"@,
                    },
                },
            )
        }
    }
}

/// The address law: the reconstructed dotted-decimal string is exactly
/// the little-endian byte decomposition of the parsed 32-bit value —
/// four decimal octets below 256 that rebuild the value lowest byte
/// first.
pub proof fn lemma_ip_reconstruction(addr: u32)
    ensures
        ({
            let b0 = addr & 0xFF;
            let b1 = (addr >> 8) & 0xFF;
            let b2 = (addr >> 16) & 0xFF;
            let b3 = (addr >> 24) & 0xFF;
            &&& ip_chars(addr) == dec_chars(b0 as nat) + seq!['.'] + dec_chars(b1 as nat)
                + seq!['.'] + dec_chars(b2 as nat) + seq!['.'] + dec_chars(b3 as nat)
            &&& b0 < 256 && b1 < 256 && b2 < 256 && b3 < 256
            &&& addr == b0 + 0x100 * b1 + 0x10000 * b2 + 0x1000000 * b3
        }),
{
    let b0 = addr & 0xFF;
    let b1 = (addr >> 8) & 0xFF;
    let b2 = (addr >> 16) & 0xFF;
    let b3 = (addr >> 24) & 0xFF;
    assert(b0 < 256 && b1 < 256 && b2 < 256 && b3 < 256 && addr == b0 + 0x100 * b1 + 0x10000 * b2
        + 0x1000000 * b3) by (bit_vector)
        requires
            b0 == addr & 0xFF && b1 == (addr >> 8) & 0xFF && b2 == (addr >> 16) & 0xFF && b3 == (
            addr >> 24) & 0xFF,
    ;
}

/// The admission law for TCP rows.  With no specific port set, a row is
/// admitted exactly in the listening state, and then carries the label
/// `LISTEN`; with a specific port set and matched, a row in any state is
/// admitted and carries that state's label.
pub proof fn lemma_tcp_admission(
    line: Seq<char>,
    table: Seq<EntryModel>,
    localhost_only: bool,
    specific_port: Option<u16>,
)
    ensures
        ({
            let fs = split_fields(line);
            let r = parse_line_model(line, Protocol::Tcp, table, localhost_only, specific_port);
            &&& (specific_port is None ==> (r matches Option::Some(p) ==> fs[3] == "0A"@
                && p.state == "LISTEN"@))
            &&& (r matches Option::Some(p) ==> p.state == tcp_state_chars(fs[3]) && p.protocol
                == "TCP"@)
        }),
        ({
            let fs = split_fields(line);
            let hexaddr = fs[1].subrange(0, colon_pos(fs[1]));
            let hexport = fs[1].subrange(colon_pos(fs[1]) + 1, fs[1].len() as int);
            let port = hex_or_zero(hexport, 0xFFFF) as u16;
            let ip = ip_chars(hex_or_zero(hexaddr, 0xFFFFFFFF) as u32);
            (fs.len() >= 10 && count_char(fs[1], ':') == 1 && (!localhost_only || ip
                == "127.0.0.1"@ || ip == "0.0.0.0"@) && (match specific_port {
                Option::Some(tp) => port == tp,
                Option::None => fs[3] == "0A"@,
            })) ==> parse_line_model(line, Protocol::Tcp, table, localhost_only, specific_port)
                is Some
        }),
{
}

/// The UDP law: a UDP row that is admitted is labeled `OPEN`, whatever
/// its state field holds — UDP has no connection state.
pub proof fn lemma_udp_open(
    line: Seq<char>,
    table: Seq<EntryModel>,
    localhost_only: bool,
    specific_port: Option<u16>,
)
    ensures
        parse_line_model(line, Protocol::Udp, table, localhost_only, specific_port) matches
            Option::Some(p) ==> p.state == "OPEN"@ && p.protocol == "UDP"@,
{
}

/// The zero-inode law: a row whose inode field reads zero — "no socket"
/// — yields a record whose four process fields are all the sentinel
/// `"-"`; no resolution is attempted for it.
pub proof fn lemma_zero_inode(
    line: Seq<char>,
    proto: Protocol,
    table: Seq<EntryModel>,
    localhost_only: bool,
    specific_port: Option<u16>,
)
    ensures
        ({
            let r = parse_line_model(line, proto, table, localhost_only, specific_port);
            dec_or_zero(split_fields(line)[9]) == 0 ==> (r matches Option::Some(p) ==> p.pid
                == "-"@ && p.process_name == "-"@ && p.command == "-"@ && p.working_dir == "-"@)
        }),
{
}

/// The malformed-row law: a row with fewer than ten fields, or whose
/// local-address field does not hold exactly one colon, stands for no
/// record at all — it is dropped, never an error, and rows are parsed
/// independently of one another.
pub proof fn lemma_malformed_row(
    line: Seq<char>,
    proto: Protocol,
    table: Seq<EntryModel>,
    localhost_only: bool,
    specific_port: Option<u16>,
)
    ensures
        split_fields(line).len() < 10 ==> parse_line_model(
            line,
            proto,
            table,
            localhost_only,
            specific_port,
        ) is None,
        count_char(split_fields(line)[1], ':') != 1 ==> parse_line_model(
            line,
            proto,
            table,
            localhost_only,
            specific_port,
        ) is None,
{
}

/// Parses one socket-table row against the process table and the scan
/// configuration, exactly as [`parse_line_model`] says.
pub fn parse_net_line(
    line: &str,
    protocol: Protocol,
    table: &Vec<ProcessEntry>,
    localhost_only: bool,
    specific_port: Option<u16>,
) -> (r: Option<PortInfo>)
    ensures
        r matches Option::Some(p) ==> parse_line_model(
            line@,
            protocol,
            entry_models(table@),
            localhost_only,
            specific_port,
        ) == Option::Some(p@),
        r is None ==> parse_line_model(
            line@,
            protocol,
            entry_models(table@),
            localhost_only,
            specific_port,
        ) is None,
{
    let v = chars_of(line);
    let fields = split_fields_exec(&v);
    proof {
        assert(views_of(fields@) == split_fields(line@));
    }
    if fields.len() < 10 {
        return None;
    }
    proof {
        assert(views_of(fields@)[1] == fields@[1]@);
        assert(views_of(fields@)[3] == fields@[3]@);
        assert(views_of(fields@)[9] == fields@[9]@);
    }
    let (hexaddr, hexport) = match split_address(&fields[1]) {
        Option::None => {
            return None;
        },
        Option::Some(pair) => pair,
    };
    let port16: u16 = parse_hex_capped(&hexport, 0xFFFF) as u16;
    let addr: u32 = parse_hex_capped(&hexaddr, 0xFFFFFFFF) as u32;
    let ip = ip_string(addr);
    if localhost_only && !eq_str(&ip, "127.0.0.1") && !eq_str(&ip, "0.0.0.0") {
        return None;
    }
    if let Option::Some(tp) = specific_port {
        if port16 != tp {
            return None;
        }
    }
    let st = &fields[3];
    let is_tcp = match protocol {
        Protocol::Tcp => true,
        Protocol::Udp => false,
    };
    if is_tcp && !eq_str(st, "0A") && specific_port.is_none() {
        return None;
    }
    let state = state_label(protocol, st);
    let inode: u32 = match parse_u32_dec(&fields[9]) {
        Option::Some(x) => x,
        Option::None => 0,
    };
    let (pid_opt, info_opt) = if inode > 0 {
        find_process_by_inode(inode, table)
    } else {
        (None, None)
    };
    let pid = match pid_opt {
        Option::Some(p) => string_from_chars(&dec_chars_exec(p)),
        Option::None => String::from_str("-"),
    };
    let (process_name, command, working_dir) = match info_opt {
        Option::Some(pi) => (pi.name.clone(), pi.command.clone(), pi.working_dir.clone()),
        Option::None => (
            String::from_str("-"),
            String::from_str("-"),
            String::from_str("-"),
        ),
    };
    let proto_label = match protocol {
        Protocol::Tcp => String::from_str("TCP"),
        Protocol::Udp => String::from_str("UDP"),
    };
    Some(
        PortInfo {
            port: port16,
            protocol: proto_label,
            state,
            pid,
            process_name,
            command,
            working_dir,
        },
    )
}

} // verus!
