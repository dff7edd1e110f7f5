use vstd::prelude::*;
use vstd::string::StringExecFns;
use crate::codec::AddrView;
use crate::dispatcher::Addr;
use crate::message::clone_table;
use crate::message::table_view;
use crate::message::Message;
use crate::settings::NetworkSettings;
use crate::settings::Role;
use crate::text::address_key;
use crate::text::endpoint;
use crate::text::endpoint_text;
use crate::text::key_text;
use crate::text::BROADCAST_KEY;
use crate::text::COORD_INFO_KEY;
use crate::text::SERVER_INFO_KEY;

verus! {

/// The sockets of a host.
#[derive(Clone, Copy, Debug, PartialEq, Eq, Structural)]
pub enum Socket {
    /// Publishes to the other hosts.
    Publisher,
    /// Receives what the other hosts, the coordinator and the sync server
    /// publish.
    Subscriber,
    /// Asks the coordinator.
    Request,
    /// Answers the other hosts; the coordinator's alone.
    Reply,
    /// Asks the sync server.
    ServerRequest,
}

/// The places that a socket binds or connects to.
#[derive(Clone, Copy, Debug, PartialEq, Eq, Structural)]
pub enum Endpoint {
    /// This host's publisher.
    Own,
    /// Where the coordinator answers.
    CoordinatorRep,
    /// Where the coordinator publishes.
    CoordinatorPub,
    /// Where the sync server answers.
    ServerRep,
    /// Where the sync server publishes.
    ServerPub,
}

/// The keys that a host subscribes to.
#[derive(Clone, Copy, Debug, PartialEq, Eq, Structural)]
pub enum Topic {
    /// What is sent to this host alone.
    Own,
    /// What the coordinator announces.
    CoordInfo,
    /// What is sent to every host.
    Broadcast,
    /// What the sync server announces.
    ServerInfo,
}

/// One step of the handshake, for the owner of the sockets to carry out.
#[derive(Clone, Copy, Debug, PartialEq, Eq, Structural)]
pub enum NetStep {
    Bind(Socket, Endpoint),
    Connect(Socket, Endpoint),
    Subscribe(Topic),
    /// Send `Hello` with this host's address on the socket and wait for the
    /// reply.
    SayHello(Socket),
    /// Wait for the membership table to be published and keep the other
    /// hosts of it.
    AwaitIpTable,
    /// Connect the subscriber to the publisher of every other host.
    ConnectPeers,
    /// Enter this host into the table that it assembles.
    RegisterSelf,
    /// Answer requests until every host has said `Hello`.
    CollectHellos,
    /// Publish the assembled table.
    PublishIpTable,
    /// Answer requests until every other host has said `HostReady`.
    CollectReadies,
    /// Publish `StartSim`.
    PublishStartSim,
    /// Send `HostReady` on the socket and wait for the reply.
    SayReady(Socket),
    /// Wait for `StartSim` to be published.
    AwaitStartSim,
}

/// What every host does first: bind its publisher and subscribe to its own
/// key, to the coordinator's announcements and to the broadcasts.
pub open spec fn opening() -> Seq<NetStep> {
    seq![
        NetStep::Bind(Socket::Publisher, Endpoint::Own),
        NetStep::Subscribe(Topic::Own),
        NetStep::Subscribe(Topic::CoordInfo),
        NetStep::Subscribe(Topic::Broadcast),
    ]
}

/// The handshake of a host, step by step, for each role.
pub open spec fn script(role: Role) -> Seq<NetStep> {
    match role {
        Role::Synced => opening() + seq![
            NetStep::Connect(Socket::ServerRequest, Endpoint::ServerRep),
            NetStep::Connect(Socket::Subscriber, Endpoint::ServerPub),
            NetStep::Subscribe(Topic::ServerInfo),
            NetStep::SayHello(Socket::ServerRequest),
            NetStep::AwaitIpTable,
            NetStep::ConnectPeers,
            NetStep::SayReady(Socket::ServerRequest),
        ],
        Role::Coordinator => opening() + seq![
            NetStep::Bind(Socket::Reply, Endpoint::CoordinatorRep),
            NetStep::RegisterSelf,
            NetStep::CollectHellos,
            NetStep::ConnectPeers,
            NetStep::PublishIpTable,
            NetStep::CollectReadies,
            NetStep::PublishStartSim,
        ],
        Role::Participant => opening() + seq![
            NetStep::Connect(Socket::Request, Endpoint::CoordinatorRep),
            NetStep::Connect(Socket::Subscriber, Endpoint::CoordinatorPub),
            NetStep::SayHello(Socket::Request),
            NetStep::AwaitIpTable,
            NetStep::ConnectPeers,
            NetStep::SayReady(Socket::Request),
            NetStep::AwaitStartSim,
        ],
    }
}

/// A record for the publisher socket: the key that subscribers filter by,
/// the sender's identity, and the message.
#[derive(Debug, PartialEq, Eq)]
pub struct Publication {
    pub topic: String,
    pub from: String,
    pub msg: Message,
}

/// What a host knows of the network before the handshake.
pub struct NetworkCtx {
    /// This host's own key, `ip:port`.
    pub private_key: String,
    pub settings: NetworkSettings,
}

impl NetworkCtx {
    /// What the host of these settings knows before the handshake.
    pub fn new(settings: NetworkSettings) -> (ctx: NetworkCtx)
        ensures
            ctx.settings == settings,
            ctx.private_key@ == key_text(settings.host_ip@, settings.pub_port),
    {
        let private_key = Self::create_private_key(&settings);
        NetworkCtx { private_key, settings }
    }

    /// The key that names the host of these settings.
    pub fn create_private_key(settings: &NetworkSettings) -> (key: String)
        ensures
            key@ == key_text(settings.host_ip@, settings.pub_port),
    {
        address_key(settings.host_ip.as_str(), settings.pub_port)
    }

    /// The steps of the handshake for this host.
    pub fn init(&self) -> (steps: Vec<NetStep>)
        ensures
            steps@ == script(self.settings.spec_role()),
    {
        let mut steps: Vec<NetStep> = Vec::new();
        steps.push(NetStep::Bind(Socket::Publisher, Endpoint::Own));
        steps.push(NetStep::Subscribe(Topic::Own));
        steps.push(NetStep::Subscribe(Topic::CoordInfo));
        steps.push(NetStep::Subscribe(Topic::Broadcast));
        match self.settings.role() {
            Role::Synced => {
                steps.push(NetStep::Connect(Socket::ServerRequest, Endpoint::ServerRep));
                steps.push(NetStep::Connect(Socket::Subscriber, Endpoint::ServerPub));
                steps.push(NetStep::Subscribe(Topic::ServerInfo));
                steps.push(NetStep::SayHello(Socket::ServerRequest));
                steps.push(NetStep::AwaitIpTable);
                steps.push(NetStep::ConnectPeers);
                steps.push(NetStep::SayReady(Socket::ServerRequest));
            },
            Role::Coordinator => {
                steps.push(NetStep::Bind(Socket::Reply, Endpoint::CoordinatorRep));
                steps.push(NetStep::RegisterSelf);
                steps.push(NetStep::CollectHellos);
                steps.push(NetStep::ConnectPeers);
                steps.push(NetStep::PublishIpTable);
                steps.push(NetStep::CollectReadies);
                steps.push(NetStep::PublishStartSim);
            },
            Role::Participant => {
                steps.push(NetStep::Connect(Socket::Request, Endpoint::CoordinatorRep));
                steps.push(NetStep::Connect(Socket::Subscriber, Endpoint::CoordinatorPub));
                steps.push(NetStep::SayHello(Socket::Request));
                steps.push(NetStep::AwaitIpTable);
                steps.push(NetStep::ConnectPeers);
                steps.push(NetStep::SayReady(Socket::Request));
                steps.push(NetStep::AwaitStartSim);
            },
        }
        assert(steps@ =~= script(self.settings.spec_role()));
        steps
    }

    /// The address `tcp://ip:port` of a place, taken from the settings.
    pub fn endpoint(&self, which: Endpoint) -> (address: String)
        ensures
            address@ == match which {
                Endpoint::Own => endpoint_text(self.settings.host_ip@, self.settings.pub_port),
                Endpoint::CoordinatorRep => endpoint_text(
                    self.settings.coordinator_ip@,
                    self.settings.coordinator_rep_port,
                ),
                Endpoint::CoordinatorPub => endpoint_text(
                    self.settings.coordinator_ip@,
                    self.settings.coordinator_pub_port,
                ),
                Endpoint::ServerRep => endpoint_text(
                    self.settings.global_sync.server_ip@,
                    self.settings.global_sync.server_rep_port,
                ),
                Endpoint::ServerPub => endpoint_text(
                    self.settings.global_sync.server_ip@,
                    self.settings.global_sync.server_pub_port,
                ),
            },
    {
        match which {
            Endpoint::Own => endpoint(self.settings.host_ip.as_str(), self.settings.pub_port),
            Endpoint::CoordinatorRep => endpoint(
                self.settings.coordinator_ip.as_str(),
                self.settings.coordinator_rep_port,
            ),
            Endpoint::CoordinatorPub => endpoint(
                self.settings.coordinator_ip.as_str(),
                self.settings.coordinator_pub_port,
            ),
            Endpoint::ServerRep => endpoint(
                self.settings.global_sync.server_ip.as_str(),
                self.settings.global_sync.server_rep_port,
            ),
            Endpoint::ServerPub => endpoint(
                self.settings.global_sync.server_ip.as_str(),
                self.settings.global_sync.server_pub_port,
            ),
        }
    }

    /// The key that a topic is subscribed under.
    pub fn topic(&self, which: Topic) -> (key: String)
        ensures
            key@ == match which {
                Topic::Own => self.private_key@,
                Topic::CoordInfo => COORD_INFO_KEY@,
                Topic::Broadcast => BROADCAST_KEY@,
                Topic::ServerInfo => SERVER_INFO_KEY@,
            },
    {
        match which {
            Topic::Own => self.private_key.clone(),
            Topic::CoordInfo => String::from_str(COORD_INFO_KEY),
            Topic::Broadcast => String::from_str(BROADCAST_KEY),
            Topic::ServerInfo => String::from_str(SERVER_INFO_KEY),
        }
    }

    /// The `Hello` by which this host makes itself known.
    pub fn send_hello_msg(&self) -> (msg: Message)
        ensures
            msg matches Message::Hello(ip, port) && ip == self.settings.host_ip && port
                == self.settings.pub_port,
    {
        Message::Hello(self.settings.host_ip.clone(), self.settings.pub_port)
    }

    /// The `StartSim` that the coordinator publishes once every other host is
    /// ready.
    pub fn publish_start_sim(&self) -> (record: Publication)
        ensures
            record.topic@ == COORD_INFO_KEY@,
            record.from == self.private_key,
            record.msg == Message::StartSim,
    {
        Publication {
            topic: String::from_str(COORD_INFO_KEY),
            from: self.private_key.clone(),
            msg: Message::StartSim,
        }
    }

    /// Looks at a publication while this host waits for the membership
    /// table: a table gives the other hosts of it, anything else nothing.
    pub fn wait_for_ip_table(&self, msg: Message) -> (table: Option<Vec<Addr>>)
        ensures
            match msg {
                Message::IpTable(all) => table matches Some(mine) && table_view(mine@) == others(
                    table_view(all@),
                    (self.settings.host_ip@, self.settings.pub_port),
                ),
                _ => table is None,
            },
    {
        match msg {
            Message::IpTable(all) => Some(self.peers(&all)),
            _ => None,
        }
    }

    /// The hosts of `table` but this one: those that this host connects its
    /// subscriber to and sends to.
    pub fn peers(&self, table: &Vec<Addr>) -> (mine: Vec<Addr>)
        ensures
            table_view(mine@) == others(
                table_view(table@),
                (self.settings.host_ip@, self.settings.pub_port),
            ),
    {
        without(table, &self.settings.host_ip, self.settings.pub_port)
    }

    /// Whether a publication is the `StartSim` that ends the handshake.
    pub fn wait_for_signal(&self, msg: &Message) -> (go: bool)
        ensures
            go == (*msg is StartSim),
    {
        match msg {
            Message::StartSim => true,
            _ => false,
        }
    }
}

/// The addresses of `table` but `own`, in the same order.
pub open spec fn others(table: Seq<AddrView>, own: AddrView) -> Seq<AddrView>
    decreases table.len(),
{
    if table.len() == 0 {
        Seq::empty()
    } else if table.last() == own {
        others(table.drop_last(), own)
    } else {
        others(table.drop_last(), own).push(table.last())
    }
}

/// Copies `table` without the address `ip`, `port`.
pub fn without(table: &Vec<Addr>, ip: &String, port: u32) -> (rest: Vec<Addr>)
    ensures
        table_view(rest@) == others(table_view(table@), (ip@, port)),
{
    let mut rest: Vec<Addr> = Vec::new();
    let mut i: usize = 0;
    assert(table_view(table@).take(0) =~= Seq::<AddrView>::empty());
    while i < table.len()
        invariant
            i <= table@.len(),
            table_view(rest@) == others(table_view(table@).take(i as int), (ip@, port)),
        decreases table@.len() - i,
    {
        let ghost before = table_view(rest@);
        let ghost seen = table_view(table@).take(i + 1);
        assert(seen.drop_last() =~= table_view(table@).take(i as int));
        assert(seen.last() == (table@[i as int].0@, table@[i as int].1));
        let same = table[i].1 == port && table[i].0 == *ip;
        if !same {
            rest.push((table[i].0.clone(), table[i].1));
            assert(table_view(rest@) =~= before.push(seen.last()));
        }
        i += 1;
    }
    assert(table_view(table@).take(i as int) =~= table_view(table@));
    rest
}

/// The table that the coordinator or the sync server publishes.
pub fn publish_ip_table(identity: &str, ip_table: &Vec<Addr>) -> (record: Publication)
    ensures
        record.topic@ == COORD_INFO_KEY@,
        record.from@ == identity@,
        record.msg matches Message::IpTable(table) && table_view(table@) == table_view(
            ip_table@,
        ),
{
    Publication {
        topic: String::from_str(COORD_INFO_KEY),
        from: String::from_str(identity),
        msg: Message::IpTable(clone_table(ip_table)),
    }
}

/// Number of `HostReady` that end the second wait: one from every host for
/// the sync server, one from every other host for the coordinator.
pub open spec fn ready_quota(hosts: u32, is_server: bool) -> u32 {
    if is_server || hosts == 0 {
        hosts
    } else {
        (hosts - 1) as u32
    }
}

/// The hosts that have said `Hello` so far.
pub struct HostRegistry {
    /// Number of hosts to wait for.
    pub quota: u32,
    /// Addresses of the hosts that have said `Hello`, in the order in which
    /// they did.
    pub table: Vec<Addr>,
}

impl HostRegistry {
    /// No more hosts are known than are waited for.
    pub open spec fn well_formed(&self) -> bool {
        self.table@.len() <= self.quota
    }

    /// Whether every host has said `Hello`.
    pub open spec fn spec_is_complete(&self) -> bool {
        self.table@.len() == self.quota
    }

    /// Whether every host has said `Hello`.
    #[verifier::when_used_as_spec(spec_is_complete)]
    pub fn is_complete(&self) -> (done: bool)
        ensures
            done == self.spec_is_complete(),
    {
        self.table.len() as u64 == self.quota as u64
    }

    /// Answers one request. A `Hello` from a host that is still waited for
    /// enters the table and is answered `Okay`; anything else is answered
    /// `Error` and changes nothing.
    pub fn on_request(&mut self, msg: Message) -> (reply: Message)
        requires
            old(self).well_formed(),
        ensures
            final(self).well_formed(),
            final(self).quota == old(self).quota,
            match msg {
                Message::Hello(ip, port) if !old(self).spec_is_complete() => {
                    &&& reply == Message::Okay
                    &&& final(self).table@ == old(self).table@.push((ip, port))
                },
                _ => reply == Message::Error && final(self).table == old(self).table,
            },
    {
        if self.is_complete() {
            return Message::Error;
        }
        match msg {
            Message::Hello(ip, port) => {
                self.table.push((ip, port));
                Message::Okay
            },
            _ => Message::Error,
        }
    }
}

impl NetworkCtx {
    /// Enters this host into the table that it assembles as coordinator: its
    /// own `Hello`, which counts among those of the hosts like any other.
    pub fn register_self(&self, registry: &mut HostRegistry) -> (reply: Message)
        requires
            old(registry).well_formed(),
        ensures
            final(registry).well_formed(),
            final(registry).quota == old(registry).quota,
            if old(registry).spec_is_complete() {
                reply == Message::Error && final(registry).table == old(registry).table
            } else {
                &&& reply == Message::Okay
                &&& final(registry).table@ == old(registry).table@.push(
                    (self.settings.host_ip, self.settings.pub_port),
                )
            },
    {
        registry.on_request(self.send_hello_msg())
    }
}

/// Starts the wait for the `Hello` of every host of a cluster of `hosts`
/// hosts. A coordinator, which is a host itself, says its own `Hello` first.
pub fn wait_for_hosts(hosts: u32) -> (registry: HostRegistry)
    ensures
        registry.well_formed(),
        registry.quota == hosts,
        registry.table@.len() == 0,
{
    HostRegistry { quota: hosts, table: Vec::new() }
}

/// The hosts that have said `HostReady` so far.
pub struct Confirmations {
    /// Number of hosts to wait for.
    pub quota: u32,
    /// Number of hosts that have said `HostReady`.
    pub count: u32,
}

impl Confirmations {
    /// No more hosts are counted than are waited for.
    pub open spec fn well_formed(&self) -> bool {
        self.count <= self.quota
    }

    /// Whether every host that is waited for has said `HostReady`.
    pub open spec fn spec_is_complete(&self) -> bool {
        self.count == self.quota
    }

    /// Whether every host that is waited for has said `HostReady`.
    #[verifier::when_used_as_spec(spec_is_complete)]
    pub fn is_complete(&self) -> (done: bool)
        ensures
            done == self.spec_is_complete(),
    {
        self.count == self.quota
    }

    /// Answers one request. A `HostReady` from a host that is still waited
    /// for is counted and answered `Okay`; anything else is answered `Error`
    /// and changes nothing.
    pub fn on_request(&mut self, msg: &Message) -> (reply: Message)
        requires
            old(self).well_formed(),
        ensures
            final(self).well_formed(),
            final(self).quota == old(self).quota,
            if *msg is HostReady && !old(self).spec_is_complete() {
                reply == Message::Okay && final(self).count == old(self).count + 1
            } else {
                reply == Message::Error && final(self).count == old(self).count
            },
    {
        if self.is_complete() {
            return Message::Error;
        }
        match msg {
            Message::HostReady => {
                self.count = self.count + 1;
                Message::Okay
            },
            _ => Message::Error,
        }
    }
}

/// Starts the wait for the `HostReady` of the hosts of a cluster of `hosts`
/// hosts.
pub fn wait_for_confirmations(hosts: u32, is_server: bool) -> (confirmations: Confirmations)
    ensures
        confirmations.well_formed(),
        confirmations.quota == ready_quota(hosts, is_server),
        confirmations.count == 0,
{
    let quota = if is_server || hosts == 0 {
        hosts
    } else {
        hosts - 1
    };
    Confirmations { quota, count: 0 }
}

proof fn lemma_contains_last<T>(s: Seq<T>, a: T)
    requires
        s.len() > 0,
    ensures
        s.contains(a) <==> s.drop_last().contains(a) || a == s.last(),
{
    let p = s.drop_last();
    if s.contains(a) {
        let i = choose|i: int| 0 <= i < s.len() && s[i] == a;
        if i < s.len() - 1 {
            assert(p[i] == a);
        }
    }
    if p.contains(a) {
        let i = choose|i: int| 0 <= i < p.len() && p[i] == a;
        assert(s[i] == a);
    }
    if a == s.last() {
        assert(s[s.len() - 1] == a);
    }
}

proof fn lemma_contains_push<T>(s: Seq<T>, x: T, a: T)
    ensures
        s.push(x).contains(a) <==> s.contains(a) || a == x,
{
    lemma_contains_last(s.push(x), a);
    assert(s.push(x).drop_last() =~= s);
}

proof fn lemma_others_contains(table: Seq<AddrView>, own: AddrView, a: AddrView)
    ensures
        others(table, own).contains(a) <==> table.contains(a) && a != own,
    decreases table.len(),
{
    if table.len() == 0 {
        assert(!table.contains(a));
        assert(!others(table, own).contains(a));
    } else {
        lemma_others_contains(table.drop_last(), own, a);
        lemma_contains_last(table, a);
        if table.last() != own {
            lemma_contains_push(others(table.drop_last(), own), table.last(), a);
        }
    }
}

proof fn lemma_others_of_absent(table: Seq<AddrView>, own: AddrView)
    requires
        !table.contains(own),
    ensures
        others(table, own) == table,
    decreases table.len(),
{
    if table.len() == 0 {
        assert(others(table, own) =~= table);
    } else {
        lemma_contains_last(table, own);
        lemma_others_of_absent(table.drop_last(), own);
        assert(table.drop_last().push(table.last()) =~= table);
    }
}

proof fn lemma_others_distinct(table: Seq<AddrView>, own: AddrView)
    requires
        table.no_duplicates(),
    ensures
        others(table, own).no_duplicates(),
        table.contains(own) ==> others(table, own).len() == table.len() - 1,
    decreases table.len(),
{
    if table.len() > 0 {
        let head = table.drop_last();
        let last = table.last();
        assert(head.no_duplicates());
        assert(!head.contains(last)) by {
            if head.contains(last) {
                let i = choose|i: int| 0 <= i < head.len() && head[i] == last;
                assert(table[i] == table[table.len() - 1]);
            }
        }
        lemma_others_distinct(head, own);
        lemma_contains_last(table, own);
        if last == own {
            lemma_others_of_absent(head, own);
        } else {
            lemma_others_contains(head, own, last);
            let kept = others(head, own);
            assert(kept.push(last).no_duplicates()) by {
                assert forall|i: int, j: int|
                    0 <= i < kept.push(last).len() && 0 <= j < kept.push(last).len() && i
                        != j implies kept.push(last)[i] != kept.push(last)[j] by {
                    if i == kept.len() {
                        assert(kept.contains(kept[j]));
                    } else if j == kept.len() {
                        assert(kept.contains(kept[i]));
                    }
                }
            }
        }
    }
}

/// After the handshake every host knows exactly the other hosts. `hosts` are
/// the addresses of the hosts of a cluster, in the order in which they said
/// `Hello`: this is the table that is published, and `others` is what the
/// host at `own` keeps of it.
pub proof fn law_membership_complete(hosts: Seq<AddrView>, own: AddrView)
    requires
        hosts.no_duplicates(),
        hosts.contains(own),
    ensures
        others(hosts, own).len() == hosts.len() - 1,
        others(hosts, own).no_duplicates(),
        !others(hosts, own).contains(own),
        forall|a: AddrView| #[trigger] others(hosts, own).contains(a) <==> hosts.contains(a) && a != own,
{
    lemma_others_distinct(hosts, own);
    lemma_others_contains(hosts, own, own);
    assert forall|a: AddrView| #[trigger]
        others(hosts, own).contains(a) <==> hosts.contains(a) && a != own by {
        lemma_others_contains(hosts, own, a);
    }
}

} // verus!
