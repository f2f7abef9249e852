use vstd::prelude::*;
use vstd::string::*;

verus! {

/// The kind of deployment target a host stands for.
#[derive(Clone, Copy, Debug, PartialEq, Eq, Structural)]
pub enum HostTargetType {
    Local,
    Linux,
}

/// A socket address, as a host name or IP literal and a port.
#[derive(Clone, Debug)]
pub struct SocketAddress {
    pub host: String,
    pub port: u16,
}

/// The connecting side's view of a connection mechanism.
#[derive(Clone, Debug)]
pub enum ClientStrategy {
    /// A local socket on the host with this id.
    UnixSocket(usize),
    /// A TCP port internal to the host with this id.
    InternalTcpPort(usize),
    /// A TCP address assumed to be routable from anywhere.
    ForwardedTcpPort(SocketAddress),
}

/// The listening side's view of a connection mechanism.
#[derive(Debug)]
pub enum ServerStrategy {
    UnixSocket,
    InternalTcpPort,
    ExternalTcpPort(u16),
    Demux(Vec<(u32, ServerStrategy)>),
    Merge(Vec<ServerStrategy>),
    Null,
}

/// A concrete bind configuration that a launched process realizes.
#[derive(Debug)]
pub enum ServerBindConfig {
    UnixSocket,
    TcpPort(String),
    Demux(Vec<(u32, ServerBindConfig)>),
    Merge(Vec<ServerBindConfig>),
    Null,
}

/// Failures of strategy negotiation and translation.
#[derive(Clone, Copy, Debug, PartialEq, Eq, Structural)]
pub enum StrategyError {
    /// No mechanism is usable by both endpoints.
    NoViableStrategy,
    /// The strategy cannot be realized on this target.
    UnsupportedStrategy,
}

/// The loopback address that internal TCP ports bind on.
pub open spec fn loopback_host() -> Seq<char> {
    seq!['1', '2', '7', '.', '0', '.', '0', '.', '1']
}

/// Whether a strategy can be realized on a local target: no external
/// port occurs anywhere in it.
pub open spec fn locally_bindable(s: ServerStrategy) -> bool
    decreases s,
{
    match s {
        ServerStrategy::ExternalTcpPort(_) => false,
        ServerStrategy::Demux(m) => forall|i: int|
            0 <= i < m@.len() ==> locally_bindable(#[trigger] m@[i].1),
        ServerStrategy::Merge(l) => forall|i: int|
            0 <= i < l@.len() ==> locally_bindable(#[trigger] l@[i]),
        _ => true,
    }
}

/// Whether `c` is the local realization of `s`: each leaf becomes its
/// bind configuration, a demux keeps its keys in order and a merge keeps
/// its order.
pub open spec fn realizes(s: ServerStrategy, c: ServerBindConfig) -> bool
    decreases s,
{
    match s {
        ServerStrategy::UnixSocket => c is UnixSocket,
        ServerStrategy::InternalTcpPort => match c {
            ServerBindConfig::TcpPort(h) => h@ == loopback_host(),
            _ => false,
        },
        ServerStrategy::ExternalTcpPort(_) => false,
        ServerStrategy::Demux(m) => match c {
            ServerBindConfig::Demux(cm) => cm@.len() == m@.len() && forall|i: int|
                #![trigger cm@[i]]
                0 <= i < m@.len() ==> cm@[i].0 == m@[i].0 && realizes(
                    m@[i].1,
                    cm@[i].1,
                ),
            _ => false,
        },
        ServerStrategy::Merge(l) => match c {
            ServerBindConfig::Merge(cl) => cl@.len() == l@.len() && forall|i: int|
                0 <= i < l@.len() ==> realizes(l@[i], #[trigger] cl@[i]),
            _ => false,
        },
        ServerStrategy::Null => c is Null,
    }
}

/// A host on the local machine.
#[derive(Debug)]
pub struct LocalhostHost {
    pub id: usize,
    /// Whether this platform offers local (Unix domain) sockets.
    pub unix_sockets: bool,
}

/// Resources that hosts declare before provisioning.
#[derive(Debug)]
pub struct ResourceBatch {}

/// The outcome of provisioning a resource batch.
#[derive(Debug)]
pub struct ResourceResult {}

/// A provisioned local host.
#[derive(Debug)]
pub struct LaunchedLocalhost {}

/// Whether a host with `id` and the given local-socket support can reach a
/// server through `strategy`.
pub open spec fn reachable(id: usize, unix_sockets: bool, strategy: ClientStrategy) -> bool {
    match strategy {
        ClientStrategy::UnixSocket(target) => unix_sockets && target == id,
        ClientStrategy::InternalTcpPort(target) => target == id,
        ClientStrategy::ForwardedTcpPort(_) => true,
    }
}

/// A host negotiating with itself always finds a mechanism: a local socket
/// where the platform has them, else an internal TCP port.
pub proof fn lemma_same_host_negotiation(id: usize, unix_sockets: bool)
    ensures
        reachable(id, unix_sockets, ClientStrategy::UnixSocket(id)) == unix_sockets,
        reachable(id, unix_sockets, ClientStrategy::InternalTcpPort(id)),
{
}

/// Two distinct local hosts share no mechanism: neither a local socket nor
/// an internal TCP port of one is reachable from the other.
pub proof fn lemma_cross_host_negotiation_fails(server: usize, client: usize, unix_sockets: bool)
    requires
        server != client,
    ensures
        !reachable(client, unix_sockets, ClientStrategy::UnixSocket(server)),
        !reachable(client, unix_sockets, ClientStrategy::InternalTcpPort(server)),
{
}

/// An external port cannot be realized locally, alone or anywhere inside a
/// demux or a merge.
pub proof fn lemma_external_port_not_bindable(s: ServerStrategy, i: int)
    ensures
        s is ExternalTcpPort ==> !locally_bindable(s),
        s matches ServerStrategy::Demux(m) ==> (0 <= i < m@.len() && !locally_bindable(m@[i].1)
            ==> !locally_bindable(s)),
        s matches ServerStrategy::Merge(l) ==> (0 <= i < l@.len() && !locally_bindable(l@[i])
            ==> !locally_bindable(s)),
{
}

/// The keys of a demux, in order.
pub open spec fn demux_keys<T>(m: Seq<(u32, T)>) -> Seq<u32> {
    m.map_values(|e: (u32, T)| e.0)
}

/// Translating a demux keeps its keys and their order, so keys that were
/// distinct stay distinct.
pub proof fn lemma_demux_keys_kept(m: Vec<(u32, ServerStrategy)>, cm: Vec<(u32, ServerBindConfig)>)
    requires
        realizes(ServerStrategy::Demux(m), ServerBindConfig::Demux(cm)),
    ensures
        demux_keys(cm@) == demux_keys(m@),
{
    assert(demux_keys(cm@) =~= demux_keys(m@));
}

impl LocalhostHost {
    pub fn new(id: usize, unix_sockets: bool) -> (r: LocalhostHost)
        ensures
            r.id == id,
            r.unix_sockets == unix_sockets,
    {
        LocalhostHost { id, unix_sockets }
    }

    pub fn target_type(&self) -> (r: HostTargetType)
        ensures
            r == HostTargetType::Local,
    {
        HostTargetType::Local
    }

    /// A local host needs nothing set up for a port.
    pub fn request_port(&mut self, _bind_type: &ServerStrategy)
        ensures
            final(self).id == old(self).id,
            final(self).unix_sockets == old(self).unix_sockets,
    {
    }

    /// A local host adds nothing to a resource batch.
    pub fn collect_resources(&self, _resource_batch: &mut ResourceBatch) {
    }

    /// A local host runs binaries as they are.
    pub fn request_custom_binary(&mut self)
        ensures
            final(self).id == old(self).id,
            final(self).unix_sockets == old(self).unix_sockets,
    {
    }

    pub fn id(&self) -> (r: usize)
        ensures
            r == self.id,
    {
        self.id
    }

    /// Provisioning a local host needs no outside resources.
    pub fn provision(&mut self, _resource_result: &ResourceResult) -> (r: LaunchedLocalhost)
        ensures
            final(self).id == old(self).id,
            final(self).unix_sockets == old(self).unix_sockets,
    {
        LaunchedLocalhost {}
    }

    pub fn can_connect_to(&self, typ: &ClientStrategy) -> (r: bool)
        ensures
            r == reachable(self.id, self.unix_sockets, *typ),
    {
        match typ {
            ClientStrategy::UnixSocket(id) => self.unix_sockets && self.id == *id,
            ClientStrategy::InternalTcpPort(target) => self.id == *target,
            ClientStrategy::ForwardedTcpPort(_) => true,
        }
    }

    /// Negotiates how `connection_from` (this host itself when absent)
    /// reaches a server on this host: a local socket where the connecting
    /// host can use one, else an internal TCP port, else an error.
    pub fn strategy_as_server(&self, connection_from: Option<&LocalhostHost>) -> (r: Result<
        (ClientStrategy, ServerStrategy),
        StrategyError,
    >)
        ensures
            ({
                let from = match connection_from {
                    Some(h) => *h,
                    None => *self,
                };
                if reachable(from.id, from.unix_sockets, ClientStrategy::UnixSocket(self.id)) {
                    r matches Ok((ClientStrategy::UnixSocket(i), ServerStrategy::UnixSocket))
                        && i == self.id
                } else if reachable(
                    from.id,
                    from.unix_sockets,
                    ClientStrategy::InternalTcpPort(self.id),
                ) {
                    r matches Ok(
                        (ClientStrategy::InternalTcpPort(i), ServerStrategy::InternalTcpPort),
                    ) && i == self.id
                } else {
                    r == Err::<(ClientStrategy, ServerStrategy), _>(
                        StrategyError::NoViableStrategy,
                    )
                }
            }),
    {
        let from = match connection_from {
            Some(h) => h,
            None => self,
        };
        let unix = ClientStrategy::UnixSocket(self.id);
        if from.can_connect_to(&unix) {
            return Ok((unix, ServerStrategy::UnixSocket));
        }
        let tcp = ClientStrategy::InternalTcpPort(self.id);
        if from.can_connect_to(&tcp) {
            Ok((tcp, ServerStrategy::InternalTcpPort))
        } else {
            Err(StrategyError::NoViableStrategy)
        }
    }
}

impl LaunchedLocalhost {
    /// Translates a strategy into the bind configuration that realizes it on
    /// this machine. An external port cannot be realized locally.
    pub fn server_config(&self, bind_type: &ServerStrategy) -> (r: Result<
        ServerBindConfig,
        StrategyError,
    >)
        ensures
            locally_bindable(*bind_type) <==> r is Ok,
            r matches Ok(c) ==> realizes(*bind_type, c),
            r matches Err(e) ==> e == StrategyError::UnsupportedStrategy,
        decreases bind_type,
    {
        match bind_type {
            ServerStrategy::UnixSocket => Ok(ServerBindConfig::UnixSocket),
            ServerStrategy::InternalTcpPort => {
                let host = String::from_str("127.0.0.1");
                proof {
                    reveal_strlit("127.0.0.1");
                    assert(host@ =~= loopback_host());
                }
                Ok(ServerBindConfig::TcpPort(host))
            },
            ServerStrategy::ExternalTcpPort(_) => Err(StrategyError::UnsupportedStrategy),
            ServerStrategy::Demux(demux) => {
                let mut configs: Vec<(u32, ServerBindConfig)> = Vec::new();
                let mut i: usize = 0;
                while i < demux.len()
                    invariant
                        *bind_type == ServerStrategy::Demux(*demux),
                        i <= demux@.len(),
                        configs@.len() == i,
                        forall|j: int|
                            #![trigger configs@[j]]
                            0 <= j < i ==> configs@[j].0 == demux@[j].0 && realizes(
                                demux@[j].1,
                                configs@[j].1,
                            ),
                        forall|j: int| 0 <= j < i ==> locally_bindable(#[trigger] demux@[j].1),
                    decreases demux@.len() - i,
                {
                    proof {
                        assert(decreases_to!(*bind_type => bind_type->Demux_0));
                        assert(decreases_to!(*demux => demux@));
                        assert(decreases_to!(demux@ => demux@[i as int]));
                        assert(decreases_to!(demux@[i as int] => demux@[i as int].1));
                    }
                    let key = demux[i].0;
                    match self.server_config(&demux[i].1) {
                        Ok(c) => configs.push((key, c)),
                        Err(e) => return Err(e),
                    }
                    i += 1;
                }
                Ok(ServerBindConfig::Demux(configs))
            },
            ServerStrategy::Merge(merge) => {
                let mut configs: Vec<ServerBindConfig> = Vec::new();
                let mut i: usize = 0;
                while i < merge.len()
                    invariant
                        *bind_type == ServerStrategy::Merge(*merge),
                        i <= merge@.len(),
                        configs@.len() == i,
                        forall|j: int|
                            0 <= j < i ==> realizes(merge@[j], #[trigger] configs@[j]),
                        forall|j: int| 0 <= j < i ==> locally_bindable(#[trigger] merge@[j]),
                    decreases merge@.len() - i,
                {
                    proof {
                        assert(decreases_to!(*bind_type => bind_type->Merge_0));
                        assert(decreases_to!(*merge => merge@));
                        assert(decreases_to!(merge@ => merge@[i as int]));
                    }
                    match self.server_config(&merge[i]) {
                        Ok(c) => configs.push(c),
                        Err(e) => return Err(e),
                    }
                    i += 1;
                }
                Ok(ServerBindConfig::Merge(configs))
            },
            ServerStrategy::Null => Ok(ServerBindConfig::Null),
        }
    }

    /// A local port is reachable as it is: forwarding hands the address back.
    pub fn forward_port(&self, addr: &SocketAddress) -> (r: SocketAddress)
        ensures
            r.host@ == addr.host@,
            r.port == addr.port,
    {
        SocketAddress { host: addr.host.clone(), port: addr.port }
    }
}

} // verus!
