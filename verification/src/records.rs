//! The data the library works on: per-process metadata, the per-process
//! table handed to the resolver, and the port records the snapshot
//! builder emits.
//!
//! Each executable type has a model type made of plain mathematical
//! values; the contracts of the library speak of those models.

use vstd::prelude::*;

verus! {

/// Which transport protocol a socket-table row belongs to.
#[derive(Clone, Copy, PartialEq, Eq, Structural, Debug)]
pub enum Protocol {
    Tcp,
    Udp,
}

/// Metadata of one process: identifier, short executable name, full
/// command line, and working directory.
pub struct ProcessInfo {
    pub pid: u32,
    pub name: String,
    pub command: String,
    pub working_dir: String,
}

/// The mathematical content of a [`ProcessInfo`].
pub struct ProcessModel {
    pub pid: u32,
    pub name: Seq<char>,
    pub command: Seq<char>,
    pub working_dir: Seq<char>,
}

impl View for ProcessInfo {
    type V = ProcessModel;

    open spec fn view(&self) -> ProcessModel {
        ProcessModel {
            pid: self.pid,
            name: self.name@,
            command: self.command@,
            working_dir: self.working_dir@,
        }
    }
}

impl Clone for ProcessInfo {
    /// An exact copy, field by field.
    fn clone(&self) -> (r: Self)
        ensures
            r == *self,
    {
        ProcessInfo {
            pid: self.pid,
            name: self.name.clone(),
            command: self.command.clone(),
            working_dir: self.working_dir.clone(),
        }
    }
}

/// One process as the resolver sees it: its metadata together with the
/// link targets of its open file descriptors.
pub struct ProcessEntry {
    pub info: ProcessInfo,
    pub fd_links: Vec<String>,
}

/// The mathematical content of a [`ProcessEntry`].
pub struct EntryModel {
    pub info: ProcessModel,
    pub fd_links: Seq<Seq<char>>,
}

impl View for ProcessEntry {
    type V = EntryModel;

    open spec fn view(&self) -> EntryModel {
        EntryModel { info: self.info@, fd_links: self.fd_links@.map_values(|s: String| s@) }
    }
}

/// The models of a table of process entries, in table order.
pub open spec fn entry_models(s: Seq<ProcessEntry>) -> Seq<EntryModel> {
    s.map_values(|e: ProcessEntry| e@)
}

/// One row of the output: a port together with its protocol, state label
/// and owning process, every process field `"-"` when unresolved.
pub struct PortInfo {
    pub port: u16,
    pub protocol: String,
    pub state: String,
    pub pid: String,
    pub process_name: String,
    pub command: String,
    pub working_dir: String,
}

/// The mathematical content of a [`PortInfo`].
pub struct PortModel {
    pub port: u16,
    pub protocol: Seq<char>,
    pub state: Seq<char>,
    pub pid: Seq<char>,
    pub process_name: Seq<char>,
    pub command: Seq<char>,
    pub working_dir: Seq<char>,
}

impl View for PortInfo {
    type V = PortModel;

    open spec fn view(&self) -> PortModel {
        PortModel {
            port: self.port,
            protocol: self.protocol@,
            state: self.state@,
            pid: self.pid@,
            process_name: self.process_name@,
            command: self.command@,
            working_dir: self.working_dir@,
        }
    }
}

impl Clone for PortInfo {
    /// An exact copy, field by field.
    fn clone(&self) -> (r: Self)
        ensures
            r == *self,
    {
        PortInfo {
            port: self.port,
            protocol: self.protocol.clone(),
            state: self.state.clone(),
            pid: self.pid.clone(),
            process_name: self.process_name.clone(),
            command: self.command.clone(),
            working_dir: self.working_dir.clone(),
        }
    }
}

/// The models of a list of port records, in list order.
pub open spec fn port_models(s: Seq<PortInfo>) -> Seq<PortModel> {
    s.map_values(|p: PortInfo| p@)
}

} // verus!
