//! A script as a service: what its output means.

use vstd::prelude::*;
use std::collections::HashMap;
use crate::services::{Service, ServiceError, ServiceFailure};
use crate::text::{
    chars_of, has_line, holds_line, lines, lines_of, parse_u16, parsed_u16, split_at_first,
    split_once, str_eq, string_of, trim, trimmed, views,
};

verus! {

broadcast use vstd::std_specs::hash::group_hash_axioms;

/// Why a line that declares a port is refused.
#[derive(Debug, Clone, Copy, PartialEq, Eq, Structural)]
pub enum PortPairError {
    /// The line has another form than `PORT=(80,8080)`.
    Malformed,
    /// One of the two ports is no port number.
    NotANumber,
}

/// The ports that the line `line` declares. A line of the form
/// `PORT=(<guest>,<host>)` declares a port; whitespace is allowed around the
/// line, around the `=`, around the `,` and outside the brackets. A line
/// without `=`, or with another key than `PORT`, declares nothing.
pub open spec fn port_pair(line: Seq<char>) -> Result<Option<(u16, u16)>, PortPairError> {
    match split_at_first(trimmed(line), '=') {
        None => Ok(None),
        Some((key, value)) => if trimmed(key) != "PORT"@ {
            Ok(None)
        } else {
            match split_at_first(trimmed(value), ',') {
                None => Err(PortPairError::Malformed),
                Some((guest, host)) => {
                    let guest = trimmed(guest);
                    let host = trimmed(host);
                    if guest.len() == 0 || guest[0] != '(' {
                        Err(PortPairError::Malformed)
                    } else if host.len() == 0 || host.last() != ')' {
                        Err(PortPairError::Malformed)
                    } else {
                        match parsed_u16(guest.drop_first()) {
                            None => Err(PortPairError::NotANumber),
                            Some(g) => match parsed_u16(host.drop_last()) {
                                None => Err(PortPairError::NotANumber),
                                Some(h) => Ok(Some((g, h))),
                            },
                        }
                    }
                },
            }
        },
    }
}

/// Reads one line of the output of a script.
pub fn parse_port_pair(line: &str) -> (r: Result<Option<(u16, u16)>, PortPairError>)
    ensures
        r == port_pair(line@),
{
    let l = trim(line);
    match split_once(l.as_str(), '=') {
        None => Ok(None),
        Some((key, value)) => {
            let k = trim(key.as_str());
            if !str_eq(k.as_str(), "PORT") {
                return Ok(None);
            }
            let v = trim(value.as_str());
            match split_once(v.as_str(), ',') {
                None => Err(PortPairError::Malformed),
                Some((guest, host)) => {
                    let g = chars_of(trim(guest.as_str()).as_str());
                    let h = chars_of(trim(host.as_str()).as_str());
                    if g.len() == 0 || g[0] != '(' {
                        return Err(PortPairError::Malformed);
                    }
                    if h.len() == 0 || h[h.len() - 1] != ')' {
                        return Err(PortPairError::Malformed);
                    }
                    let guest_port = string_of(&g, 1, g.len());
                    let host_port = string_of(&h, 0, h.len() - 1);
                    assert(guest_port@ =~= g@.drop_first());
                    assert(host_port@ =~= h@.drop_last());
                    match parse_u16(guest_port.as_str()) {
                        None => Err(PortPairError::NotANumber),
                        Some(g) => match parse_u16(host_port.as_str()) {
                            None => Err(PortPairError::NotANumber),
                            Some(h) => Ok(Some((g, h))),
                        },
                    }
                },
            }
        },
    }
}

/// The table of ports that the lines `lines` declare; of two lines for one
/// port of the guest the later counts. The first line that is refused fails
/// the whole.
pub open spec fn declared_ports(lines: Seq<Seq<char>>) -> Result<Map<u16, u16>, PortPairError>
    decreases lines.len(),
{
    if lines.len() == 0 {
        Ok(Map::empty())
    } else {
        match declared_ports(lines.drop_last()) {
            Err(e) => Err(e),
            Ok(table) => match port_pair(lines.last()) {
                Err(e) => Err(e),
                Ok(None) => Ok(table),
                Ok(Some((guest, host))) => Ok(table.insert(guest, host)),
            },
        }
    }
}

/// Where the first `k` lines fail, all the lines fail, and in the same way.
pub proof fn lemma_declared_ports_fail(lines: Seq<Seq<char>>, k: int)
    requires
        0 <= k <= lines.len(),
        declared_ports(lines.take(k)) is Err,
    ensures
        declared_ports(lines) == declared_ports(lines.take(k)),
    decreases lines.len(),
{
    if k < lines.len() {
        assert(lines.drop_last().take(k) =~= lines.take(k));
        lemma_declared_ports_fail(lines.drop_last(), k);
    } else {
        assert(lines.take(k) =~= lines);
    }
}

/// What `parse_ports` returned, the table as a map.
pub open spec fn ports_view(r: Result<HashMap<u16, u16>, PortPairError>) -> Result<
    Map<u16, u16>,
    PortPairError,
> {
    match r {
        Ok(table) => Ok(table@),
        Err(e) => Err(e),
    }
}

/// Reads the ports that the output `output` of a script declares.
pub fn parse_ports(output: &str) -> (r: Result<HashMap<u16, u16>, PortPairError>)
    ensures
        ports_view(r) == declared_ports(lines_of(output@)),
{
    let all = lines(output);
    let ghost texts = views(all@);
    let mut table: HashMap<u16, u16> = HashMap::new();
    let mut i: usize = 0;
    assert(texts.take(0) =~= Seq::empty());
    while i < all.len()
        invariant
            i <= all.len(),
            texts == views(all@),
            texts == lines_of(output@),
            declared_ports(texts.take(i as int)) == Ok::<Map<u16, u16>, PortPairError>(table@),
        decreases all.len() - i,
    {
        assert(texts.take(i + 1).drop_last() =~= texts.take(i as int));
        assert(texts.take(i + 1).last() == all@[i as int]@);
        match parse_port_pair(all[i].as_str()) {
            Err(e) => {
                proof {
                    lemma_declared_ports_fail(texts, i + 1);
                }
                return Err(e);
            },
            Ok(None) => {},
            Ok(Some((guest, host))) => {
                table.insert(guest, host);
            },
        }
        i += 1;
    }
    assert(texts.take(i as int) =~= texts);
    Ok(table)
}

/// A script as a service.
pub struct PythonService {
    name: String,
    output: String,
    exited: bool,
    ready: bool,
    ports: Option<HashMap<u16, u16>>,
}

/// A `PythonService` as what it holds: its name, the output of the script
/// so far, whether its process has ended, whether it was seen ready, and the
/// ports that it told last.
pub struct PythonState {
    pub name: Seq<char>,
    pub output: Seq<char>,
    pub exited: bool,
    pub ready: bool,
    pub ports: Option<Map<u16, u16>>,
}

impl View for PythonService {
    type V = PythonState;

    closed spec fn view(&self) -> PythonState {
        PythonState {
            name: self.name@,
            output: self.output@,
            exited: self.exited,
            ready: self.ready,
            ports: match self.ports {
                Some(table) => Some(table@),
                None => None,
            },
        }
    }
}

impl PythonService {
    /// The service `name` whose script was just started: no output yet.
    pub fn started(name: String) -> (r: Self)
        ensures
            r@ == (PythonState {
                name: name@,
                output: Seq::empty(),
                exited: false,
                ready: false,
                ports: None,
            }),
    {
        PythonService { name, output: String::new(), exited: false, ready: false, ports: None }
    }

    /// Takes in the output of the script so far and whether its process has
    /// ended. The service is ready once a line of the output is `READY`,
    /// and stays so.
    pub fn observe(&mut self, output: String, exited: bool)
        ensures
            final(self)@ == (PythonState {
                name: old(self)@.name,
                output: output@,
                exited,
                ready: old(self)@.ready || has_line(output@, "READY"@),
                ports: old(self)@.ports,
            }),
    {
        if !self.ready && holds_line(output.as_str(), "READY") {
            self.ready = true;
        }
        self.output = output;
        self.exited = exited;
    }
}

impl Service for PythonService {
    open spec fn label(&self) -> Seq<char> {
        self@.name
    }

    open spec fn health(&self) -> Result<(), ServiceFailure> {
        if self@.exited {
            Err(ServiceFailure::ExitedEarly)
        } else if self@.ready {
            Ok(())
        } else {
            Err(ServiceFailure::NotReady { service: self@.name })
        }
    }

    open spec fn answer(&self) -> Result<Map<u16, u16>, ServiceFailure> {
        match declared_ports(lines_of(self@.output)) {
            Ok(table) => Ok(table),
            Err(PortPairError::Malformed) => Err(ServiceFailure::MalformedPortPair),
            Err(PortPairError::NotANumber) => Err(ServiceFailure::PortNotANumber),
        }
    }

    fn name(&self) -> (n: &str) {
        self.name.as_str()
    }

    /// Succeeds where the script was seen ready and its process has not
    /// ended. A process that has ended is a failure, ready or not.
    fn ready(&mut self) -> (r: Result<(), ServiceError>)
        ensures
            final(self)@ == old(self)@,
    {
        if self.exited {
            Err(ServiceError::ExitedEarly)
        } else if self.ready {
            Ok(())
        } else {
            Err(ServiceError::NotReady { service: self.name.clone() })
        }
    }

    /// The ports that the output so far declares, read anew at each call.
    fn ports(&mut self) -> (r: Result<&HashMap<u16, u16>, ServiceError>)
        ensures
            final(self)@.name == old(self)@.name,
            final(self)@.output == old(self)@.output,
            final(self)@.exited == old(self)@.exited,
            final(self)@.ready == old(self)@.ready,
    {
        match parse_ports(self.output.as_str()) {
            Ok(table) => {
                self.ports = Some(table);
                Ok(self.ports.as_ref().unwrap())
            },
            Err(PortPairError::Malformed) => Err(ServiceError::MalformedPortPair),
            Err(PortPairError::NotANumber) => Err(ServiceError::PortNotANumber),
        }
    }
}

} // verus!
