//! Port mappings of a container.

use vstd::prelude::*;
use crate::text::{decimal, decimal_string, same_text};

verus! {

/// Protocol of the container port binding
#[derive(Debug, Clone, Copy, PartialEq, Eq, Structural)]
pub enum PortBindProtocol {
    Tcp,
    Udp,
}

impl PortBindProtocol {
    /// The name of the protocol as Docker writes it.
    pub open spec fn text(self) -> Seq<char> {
        match self {
            PortBindProtocol::Tcp => "tcp"@,
            PortBindProtocol::Udp => "udp"@,
        }
    }

    /// The name of the protocol as Docker writes it.
    pub fn as_str(self) -> (r: &'static str)
        ensures
            r@ == self.text(),
    {
        match self {
            PortBindProtocol::Tcp => "tcp",
            PortBindProtocol::Udp => "udp",
        }
    }
}

/// Define port mapping like for the argument `-p
/// <host_ip>:<host_port>:<container_port>/<protocol>`.
///
/// Usually, this shouldn't be used for integration testing because all
/// containers in the same network should already be accessible.
#[derive(Debug, Clone, PartialEq, Eq)]
pub struct PortBind {
    pub container_port: u16,
    pub host_port: Option<u16>,
    pub host_ip: Option<String>,
    pub protocol: PortBindProtocol,
}

/// One binding of a container port to the host, as the Docker Engine API
/// takes it.
#[derive(Debug, Clone, PartialEq, Eq)]
pub struct PortBinding {
    /// Host IP address that the container's port is mapped to.
    pub host_ip: Option<String>,
    /// Host port number that the container's port is mapped to.
    pub host_port: Option<String>,
}

impl PortBind {
    /// Results in the port mapping `<port>:<port>`, which is equivalent to
    /// `0.0.0.0:<port>:<port>/tcp`
    pub fn new(port: u16) -> (r: Self)
        ensures
            r.container_port == port,
            r.host_port == Some(port),
            r.host_ip is None,
            r.protocol == PortBindProtocol::Tcp,
    {
        PortBind {
            container_port: port,
            host_port: Some(port),
            host_ip: None,
            protocol: PortBindProtocol::Tcp,
        }
    }

    /// Sets a different `host_port` in `<host_port>:<container_port>`
    pub fn with_host_port(self, host_port: u16) -> (r: Self)
        ensures
            r == (PortBind { host_port: Some(host_port), ..self }),
    {
        let mut r = self;
        r.host_port = Some(host_port);
        r
    }

    /// Sets a different host IP in `<host_ip>:<host_port>:<container_port>`
    pub fn with_host_ip(self, host_ip: String) -> (r: Self)
        ensures
            r == (PortBind { host_ip: Some(host_ip), ..self }),
    {
        let mut r = self;
        r.host_ip = Some(host_ip);
        r
    }

    /// Sets the protocol
    pub fn with_protocol(self, protocol: PortBindProtocol) -> (r: Self)
        ensures
            r == (PortBind { protocol, ..self }),
    {
        let mut r = self;
        r.protocol = protocol;
        r
    }

    /// The host port of the mapping: the container's port where none was chosen.
    pub open spec fn effective_host_port(&self) -> u16 {
        match self.host_port {
            Some(p) => p,
            None => self.container_port,
        }
    }

    /// The key under which Docker knows the container's port:
    /// `<container_port>/<protocol>`.
    pub open spec fn spec_key(&self) -> Seq<char> {
        decimal(self.container_port as nat) + "/"@ + self.protocol.text()
    }

    /// The key under which Docker knows the container's port.
    pub fn key(&self) -> (r: String)
        ensures
            r@ == self.spec_key(),
    {
        let mut r = decimal_string(self.container_port as u64);
        r.append("/");
        r.append(self.protocol.as_str());
        r
    }

    /// The binding to the host that this mapping asks for.
    pub fn binding(&self) -> (r: PortBinding)
        ensures
            r.host_port matches Some(p) && p@ == decimal(self.effective_host_port() as nat),
            match r.host_ip {
                Some(ip) => self.host_ip matches Some(own) && own@ == ip@,
                None => self.host_ip is None,
            },
    {
        let port = match self.host_port {
            Some(p) => p,
            None => self.container_port,
        };
        let host_ip = match &self.host_ip {
            Some(ip) => Some(ip.clone()),
            None => None,
        };
        PortBinding { host_ip, host_port: Some(decimal_string(port as u64)) }
    }
}

impl vstd::std_specs::convert::FromSpecImpl<u16> for PortBind {
    open spec fn obeys_from_spec() -> bool {
        true
    }

    open spec fn from_spec(port: u16) -> Self {
        PortBind {
            container_port: port,
            host_port: Some(port),
            host_ip: None,
            protocol: PortBindProtocol::Tcp,
        }
    }
}

impl From<u16> for PortBind {
    /// The mapping `<port>:<port>` over TCP, as `new` gives it.
    fn from(port: u16) -> (r: Self) {
        PortBind {
            container_port: port,
            host_port: Some(port),
            host_ip: None,
            protocol: PortBindProtocol::Tcp,
        }
    }
}

/// A `PortBinding` as plain values.
pub struct PortBindingView {
    pub host_ip: Option<Seq<char>>,
    pub host_port: Option<Seq<char>>,
}

impl View for PortBinding {
    type V = PortBindingView;

    open spec fn view(&self) -> PortBindingView {
        PortBindingView {
            host_ip: match self.host_ip {
                Some(ip) => Some(ip@),
                None => None,
            },
            host_port: match self.host_port {
                Some(p) => Some(p@),
                None => None,
            },
        }
    }
}

/// The binding to the host that a mapping asks for.
pub open spec fn binding_of(pb: PortBind) -> PortBindingView {
    PortBindingView {
        host_ip: match pb.host_ip {
            Some(ip) => Some(ip@),
            None => None,
        },
        host_port: Some(decimal(pb.effective_host_port() as nat)),
    }
}

/// The bindings as plain values.
pub open spec fn binding_views(bindings: Seq<PortBinding>) -> Seq<PortBindingView> {
    bindings.map_values(|b: PortBinding| b@)
}

/// The keys of the container ports of the mappings, each once, in the order
/// in which they first occur.
pub open spec fn port_keys(pbs: Seq<PortBind>) -> Seq<Seq<char>>
    decreases pbs.len(),
{
    if pbs.len() == 0 {
        Seq::empty()
    } else {
        let before = port_keys(pbs.drop_last());
        if before.contains(pbs.last().spec_key()) {
            before
        } else {
            before.push(pbs.last().spec_key())
        }
    }
}

/// The bindings that the mappings ask for under the given key, in order.
pub open spec fn bindings_for(pbs: Seq<PortBind>, key: Seq<char>) -> Seq<PortBindingView>
    decreases pbs.len(),
{
    if pbs.len() == 0 {
        Seq::empty()
    } else if pbs.last().spec_key() == key {
        bindings_for(pbs.drop_last(), key).push(binding_of(pbs.last()))
    } else {
        bindings_for(pbs.drop_last(), key)
    }
}

/// A key that is not among the keys of the mappings has no bindings.
pub proof fn lemma_no_key_no_bindings(pbs: Seq<PortBind>, key: Seq<char>)
    requires
        !port_keys(pbs).contains(key),
    ensures
        bindings_for(pbs, key) == Seq::<PortBindingView>::empty(),
    decreases pbs.len(),
{
    if pbs.len() > 0 {
        let before = port_keys(pbs.drop_last());
        if before.contains(pbs.last().spec_key()) {
            lemma_no_key_no_bindings(pbs.drop_last(), key);
        } else {
            let last = pbs.last().spec_key();
            assert(before.push(last)[before.len() as int] == last);
            assert(last != key);
            assert(!before.contains(key)) by {
                if before.contains(key) {
                    let i = choose|i: int| 0 <= i < before.len() && before[i] == key;
                    assert(before.push(last)[i] == key);
                }
            }
            lemma_no_key_no_bindings(pbs.drop_last(), key);
        }
    }
}

/// The port arguments of the creation of a container through the Docker
/// Engine API: the exposed ports, and for each of them its bindings.
#[derive(Debug, Clone, PartialEq, Eq)]
pub struct PortArguments {
    /// The keys of the exposed ports.
    pub exposed: Vec<String>,
    /// For each exposed port, in the same order, its bindings to the host.
    pub bindings: Vec<Vec<PortBinding>>,
}

/// Groups the mappings by container port: every port is exposed once, and
/// carries the bindings of all mappings of that port, in their order.
pub fn port_bindings_to_bollard_args(pbs: &Vec<PortBind>) -> (r: PortArguments)
    ensures
        r.exposed.deep_view() == port_keys(pbs@),
        r.bindings@.len() == r.exposed@.len(),
        forall|j: int|
            0 <= j < r.exposed@.len() ==> binding_views((#[trigger] r.bindings@[j])@)
                == bindings_for(pbs@, r.exposed@[j]@),
{
    let mut exposed: Vec<String> = Vec::new();
    let mut bindings: Vec<Vec<PortBinding>> = Vec::new();
    let mut n: usize = 0;
    assert(pbs@.take(0) =~= Seq::<PortBind>::empty());
    assert(exposed.deep_view() =~= port_keys(pbs@.take(0)));
    while n < pbs.len()
        invariant
            n <= pbs.len(),
            exposed.deep_view() == port_keys(pbs@.take(n as int)),
            bindings@.len() == exposed@.len(),
            forall|j: int|
                0 <= j < exposed@.len() ==> binding_views((#[trigger] bindings@[j])@) == bindings_for(
                    pbs@.take(n as int),
                    exposed@[j]@,
                ),
        decreases pbs.len() - n,
    {
        let key = pbs[n].key();
        let binding = pbs[n].binding();
        let ghost before_keys = exposed.deep_view();
        let ghost before = pbs@.take(n as int);
        let ghost after = pbs@.take(n + 1);
        proof {
            assert(after.drop_last() =~= before);
            assert(after.last() == pbs@[n as int]);
            assert(binding@ == binding_of(pbs@[n as int]));
        }
        let mut at: usize = 0;
        while at < exposed.len() && !same_text(exposed[at].as_str(), key.as_str())
            invariant
                at <= exposed.len(),
                before_keys == exposed.deep_view(),
                forall|j: int| 0 <= j < at ==> before_keys[j] != key@,
            decreases exposed.len() - at,
        {
            at += 1;
        }
        if at < exposed.len() {
            assert(before_keys[at as int] == key@);
            assert(before_keys.contains(key@));
            let ghost old_bindings = bindings@;
            let mut list = bindings.remove(at);
            let ghost old_list = binding_views(list@);
            list.push(binding);
            assert(binding_views(list@) =~= old_list.push(binding@));
            bindings.insert(at, list);
            assert(bindings@ =~= old_bindings.update(at as int, list));
            proof {
                assert forall|j: int| 0 <= j < exposed@.len() implies binding_views(
                    (#[trigger] bindings@[j])@,
                ) == bindings_for(after, exposed@[j]@) by {
                    if j != at {
                        assert(bindings@[j] == old_bindings[j]);
                        assert(exposed@[j]@ == before_keys[j]);
                        // Keys are listed once.
                        lemma_keys_distinct(before, j, at as int);
                    }
                }
            }
        } else {
            assert(!before_keys.contains(key@));
            proof {
                lemma_no_key_no_bindings(before, key@);
            }
            let mut list: Vec<PortBinding> = Vec::new();
            list.push(binding);
            assert(binding_views(list@) =~= seq![binding@]);
            exposed.push(key);
            bindings.push(list);
            assert(exposed.deep_view() =~= before_keys.push(key@));
            proof {
                assert forall|j: int| 0 <= j < exposed@.len() implies binding_views(
                    (#[trigger] bindings@[j])@,
                ) == bindings_for(after, exposed@[j]@) by {
                    if j < before_keys.len() {
                        assert(exposed@[j]@ == before_keys[j]);
                        assert(before_keys.contains(before_keys[j]));
                    }
                }
            }
        }
        n += 1;
    }
    assert(pbs@.take(n as int) =~= pbs@);
    PortArguments { exposed, bindings }
}

/// No key is listed twice.
pub proof fn lemma_keys_distinct(pbs: Seq<PortBind>, i: int, j: int)
    requires
        0 <= i < port_keys(pbs).len(),
        0 <= j < port_keys(pbs).len(),
        i != j,
    ensures
        port_keys(pbs)[i] != port_keys(pbs)[j],
    decreases pbs.len(),
{
    if pbs.len() > 0 {
        let before = port_keys(pbs.drop_last());
        if before.contains(pbs.last().spec_key()) {
            lemma_keys_distinct(pbs.drop_last(), i, j);
        } else {
            if i < before.len() && j < before.len() {
                lemma_keys_distinct(pbs.drop_last(), i, j);
            } else if i < before.len() {
                assert(before.contains(before[i]));
            } else {
                assert(before.contains(before[j]));
            }
        }
    }
}

} // verus!
