//! The configuration file of rathole, as the operator writes it for a
//! server, and the services that clients add to it.
use vstd::prelude::*;

use std::sync::Arc;

use crate::crd::{Server, ServiceConfig};
use crate::table::NamedTable;
use crate::text::{format_host_port, host_port, opt_view};

pub use crate::genkey::{genkey, get_str_from_keypair_type, KeypairType};

verus! {

/// The whole configuration: a server part, a client part, or both.
#[derive(Debug, Clone, PartialEq)]
pub struct Config {
    pub server: Option<ServerConfig>,
    pub client: Option<ClientConfig>,
}

/// The transports of rathole.
#[derive(Debug, Clone, Copy, PartialEq, Eq, Structural)]
pub enum TransportType {
    Tcp,
    Tls,
    Noise,
    Websocket,
}

impl Default for TransportType {
    fn default() -> (t: TransportType)
        ensures
            t == TransportType::Tcp,
    {
        TransportType::Tcp
    }
}

/// The protocol of a service.
#[derive(Debug, Clone, Copy, PartialEq, Eq, Structural)]
pub enum ServiceType {
    Tcp,
    Udp,
}

impl Default for ServiceType {
    fn default() -> (t: ServiceType)
        ensures
            t == ServiceType::Tcp,
    {
        ServiceType::Tcp
    }
}

/// The protocol of a service when none is given.
pub fn default_service_type() -> (t: ServiceType)
    ensures
        t == ServiceType::Tcp,
{
    ServiceType::Tcp
}

/// Per service config of a client.
/// All Option are optional in configuration but must be Some value in runtime
#[derive(Debug, PartialEq)]
pub struct ClientServiceConfig {
    pub service_type: ServiceType,
    pub name: String,
    pub local_addr: String,
    pub token: Option<String>,
    pub nodelay: Option<bool>,
    pub retry_interval: Option<u64>,
}

/// What a client service config holds, with its texts as character sequences.
pub struct ClientServiceConfigView {
    pub service_type: ServiceType,
    pub name: Seq<char>,
    pub local_addr: Seq<char>,
    pub token: Option<Seq<char>>,
    pub nodelay: Option<bool>,
    pub retry_interval: Option<u64>,
}

impl View for ClientServiceConfig {
    type V = ClientServiceConfigView;

    open spec fn view(&self) -> ClientServiceConfigView {
        ClientServiceConfigView {
            service_type: self.service_type,
            name: self.name@,
            local_addr: self.local_addr@,
            token: opt_view(self.token),
            nodelay: self.nodelay,
            retry_interval: self.retry_interval,
        }
    }
}

impl Clone for ClientServiceConfig {
    fn clone(&self) -> (c: ClientServiceConfig)
        ensures
            c == *self,
    {
        ClientServiceConfig {
            service_type: self.service_type,
            name: self.name.clone(),
            local_addr: self.local_addr.clone(),
            token: match &self.token {
                Some(t) => Some(t.clone()),
                None => None,
            },
            nodelay: self.nodelay,
            retry_interval: self.retry_interval,
        }
    }
}

impl Default for ClientServiceConfig {
    fn default() -> (c: ClientServiceConfig)
        ensures
            c@ == (ClientServiceConfigView {
                service_type: ServiceType::Tcp,
                name: Seq::empty(),
                local_addr: Seq::empty(),
                token: None,
                nodelay: None,
                retry_interval: None,
            }),
    {
        ClientServiceConfig {
            service_type: ServiceType::Tcp,
            name: String::new(),
            local_addr: String::new(),
            token: None,
            nodelay: None,
            retry_interval: None,
        }
    }
}

impl ClientServiceConfig {
    /// The default service config, named `name`.
    pub fn with_name(name: &str) -> (c: ClientServiceConfig)
        ensures
            c@ == (ClientServiceConfigView {
                service_type: ServiceType::Tcp,
                name: name@,
                local_addr: Seq::empty(),
                token: None,
                nodelay: None,
                retry_interval: None,
            }),
    {
        ClientServiceConfig { name: String::from_str(name), ..Default::default() }
    }
}

/// Per service config of a server.
/// All Option are optional in configuration but must be Some value in runtime
#[derive(Debug, Clone, PartialEq)]
pub struct ServerServiceConfig {
    pub service_type: ServiceType,
    pub name: String,
    pub bind_addr: String,
    pub token: Option<String>,
    pub nodelay: Option<bool>,
}

/// What a server service config holds, with its texts as character sequences.
pub struct ServerServiceConfigView {
    pub service_type: ServiceType,
    pub name: Seq<char>,
    pub bind_addr: Seq<char>,
    pub token: Option<Seq<char>>,
    pub nodelay: Option<bool>,
}

impl View for ServerServiceConfig {
    type V = ServerServiceConfigView;

    open spec fn view(&self) -> ServerServiceConfigView {
        ServerServiceConfigView {
            service_type: self.service_type,
            name: self.name@,
            bind_addr: self.bind_addr@,
            token: opt_view(self.token),
            nodelay: self.nodelay,
        }
    }
}

/// The default server service config, named `name`.
pub open spec fn server_service_named(name: Seq<char>) -> ServerServiceConfigView {
    ServerServiceConfigView {
        service_type: ServiceType::Tcp,
        name: name,
        bind_addr: Seq::empty(),
        token: None,
        nodelay: None,
    }
}

impl Default for ServerServiceConfig {
    fn default() -> (c: ServerServiceConfig)
        ensures
            c@ == server_service_named(Seq::empty()),
    {
        ServerServiceConfig {
            service_type: ServiceType::Tcp,
            name: String::new(),
            bind_addr: String::new(),
            token: None,
            nodelay: None,
        }
    }
}

impl ServerServiceConfig {
    /// The default service config, named `name`.
    pub fn with_name(name: &str) -> (c: ServerServiceConfig)
        ensures
            c@ == server_service_named(name@),
    {
        ServerServiceConfig { name: String::from_str(name), ..Default::default() }
    }
}

/// The TLS settings of a transport.
#[derive(Debug, Clone, PartialEq)]
pub struct TlsConfig {
    pub hostname: Option<String>,
    pub trusted_root: Option<String>,
    pub pkcs12: Option<String>,
    pub pkcs12_password: Option<String>,
}

/// The Noise handshake pattern that a configuration file that names none uses.
pub fn default_noise_pattern() -> (s: String)
    ensures
        s@ == crate::crd::noise_pattern_spec(),
{
    String::from_str("Noise_NK_25519_ChaChaPoly_BLAKE2s")
}

/// The Noise settings of a transport.
#[derive(Debug, Clone, PartialEq)]
pub struct NoiseConfig {
    pub pattern: String,
    pub local_private_key: Option<String>,
    pub remote_public_key: Option<String>,
}

impl Default for NoiseConfig {
    fn default() -> (c: NoiseConfig)
        ensures
            c.pattern@ == Seq::<char>::empty(),
            c.local_private_key is None,
            c.remote_public_key is None,
    {
        NoiseConfig { pattern: String::new(), local_private_key: None, remote_public_key: None }
    }
}

/// The websocket settings of a transport.
#[derive(Debug, Clone, PartialEq)]
pub struct WebsocketConfig {
    pub tls: bool,
}

/// `nodelay` of a TCP transport when none is given.
pub fn default_nodelay() -> (b: bool)
    ensures
        b,
{
    true
}

/// The TCP keepalive time, in seconds, when none is given.
pub fn default_keepalive_secs() -> (n: u64)
    ensures
        n == 20,
{
    20
}

/// The TCP keepalive interval, in seconds, when none is given.
pub fn default_keepalive_interval() -> (n: u64)
    ensures
        n == 8,
{
    8
}

/// The TCP settings of a transport; the proxy is held as the text of its URL.
#[derive(Debug, Clone, PartialEq)]
pub struct TcpConfig {
    pub nodelay: bool,
    pub keepalive_secs: u64,
    pub keepalive_interval: u64,
    pub proxy: Option<String>,
}

impl Default for TcpConfig {
    fn default() -> (c: TcpConfig)
        ensures
            c.nodelay,
            c.keepalive_secs == 20,
            c.keepalive_interval == 8,
            c.proxy is None,
    {
        TcpConfig {
            nodelay: default_nodelay(),
            keepalive_secs: default_keepalive_secs(),
            keepalive_interval: default_keepalive_interval(),
            proxy: None,
        }
    }
}

/// The transport of a server or a client.
#[derive(Debug, Clone, PartialEq)]
pub struct TransportConfig {
    pub transport_type: TransportType,
    pub tcp: Option<TcpConfig>,
    pub tls: Option<TlsConfig>,
    pub noise: Option<NoiseConfig>,
    pub websocket: Option<WebsocketConfig>,
}

impl Default for TransportConfig {
    fn default() -> (c: TransportConfig)
        ensures
            c.transport_type == TransportType::Tcp,
            c.tcp is None,
            c.tls is None,
            c.noise is None,
            c.websocket is None,
    {
        TransportConfig { transport_type: TransportType::Tcp, tcp: None, tls: None, noise: None, websocket: None }
    }
}

/// The heartbeat timeout of a client, in seconds, when none is given.
pub fn default_heartbeat_timeout() -> (n: u64)
    ensures
        n == 40,
{
    40
}

/// The retry interval of a client, in seconds, when none is given.
pub fn default_client_retry_interval() -> (n: u64)
    ensures
        n == 1,
{
    1
}

/// The client part of a configuration.
#[derive(Debug, Clone, PartialEq)]
pub struct ClientConfig {
    pub remote_addr: String,
    pub default_token: Option<String>,
    pub services: NamedTable<ClientServiceConfig>,
    pub transport: TransportConfig,
    pub heartbeat_timeout: u64,
    pub retry_interval: u64,
}

/// The heartbeat interval of a server, in seconds, when none is given.
pub fn default_heartbeat_interval() -> (n: u64)
    ensures
        n == 30,
{
    30
}

/// The server part of a configuration.
#[derive(Debug, Clone, PartialEq)]
pub struct ServerConfig {
    pub bind_addr: String,
    pub default_token: Option<String>,
    pub services: NamedTable<ServerServiceConfig>,
    pub transport: TransportConfig,
    pub heartbeat_interval: u64,
}

/// The services of a server configuration file that names none: one default
/// service named `dummy`.
pub fn dummy_service() -> (t: NamedTable<ServerServiceConfig>)
    ensures
        t@ == map!["dummy"@ => server_service_named(Seq::empty())],
{
    let mut t = NamedTable::new();
    proof {
        reveal_strlit("dummy");
    }
    t.insert(String::from_str("dummy"), ServerServiceConfig { ..Default::default() });
    t
}

/// The placeholder service that every server configuration starts with.
pub open spec fn placeholder_service() -> ServerServiceConfigView {
    ServerServiceConfigView {
        service_type: ServiceType::Tcp,
        name: Seq::empty(),
        bind_addr: "0.0.0.0:80"@,
        token: Some("nouse"@),
        nodelay: None,
    }
}

/// The settings of the server part that the operator writes for a server
/// resource, all but its services: listening on its bind address, with its
/// heartbeat interval and a Noise transport.
pub open spec fn has_server_settings_of(s: ServerConfig, obj: Server) -> bool {
    &&& s.bind_addr@ == host_port(obj.spec.bind_addr.host@, obj.spec.bind_addr.port as int)
    &&& s.default_token is None
    &&& s.transport.transport_type == TransportType::Noise
    &&& s.transport.tcp is None
    &&& s.transport.tls is None
    &&& s.transport.websocket is None
    &&& s.transport.noise matches Some(n) && {
        &&& n.pattern@ == crate::crd::noise_pattern_spec()
        &&& n.local_private_key is None
        &&& n.remote_public_key is None
    }
    &&& s.heartbeat_interval == obj.spec.heartbeat_interval as u64
}

/// The placeholder service alone, under its name.
pub open spec fn placeholder_services() -> Map<Seq<char>, ServerServiceConfigView> {
    map!["dummy"@ => placeholder_service()]
}

/// The server configuration that the operator starts from for a server
/// resource: its settings, and only the placeholder service.
pub open spec fn is_runset_of(c: Config, obj: Server) -> bool {
    &&& c.client is None
    &&& c.server matches Some(s) && has_server_settings_of(s, obj) && s.services@
        == placeholder_services()
}

/// The placeholder service.
fn placeholder() -> (c: ServerServiceConfig)
    ensures
        c@ == placeholder_service(),
{
    let mut dummy = ServerServiceConfig::default();
    dummy.bind_addr = String::from_str("0.0.0.0:80");
    dummy.token = Some(String::from_str("nouse"));
    dummy
}

/// The server service that a client service becomes.
pub open spec fn server_service_of(d: ServiceConfig) -> ServerServiceConfigView {
    ServerServiceConfigView {
        service_type: ServiceType::Tcp,
        name: d.name@,
        bind_addr: host_port(d.local_addr.host@, d.local_addr.port as int),
        token: opt_view(d.token.key),
        nodelay: Some(d.nodelay),
    }
}

/// The services after adding each of `ds` in turn: a later one of a name
/// replaces an earlier one.
pub open spec fn with_services(
    m: Map<Seq<char>, ServerServiceConfigView>,
    ds: Seq<ServiceConfig>,
) -> Map<Seq<char>, ServerServiceConfigView>
    decreases ds.len(),
{
    if ds.len() == 0 {
        m
    } else {
        with_services(m, ds.drop_last()).insert(ds.last().name@, server_service_of(ds.last()))
    }
}

/// `new` is `old` with its services replaced by `services`, all else equal.
pub open spec fn server_with_services(
    old: ServerConfig,
    new: ServerConfig,
    services: Map<Seq<char>, ServerServiceConfigView>,
) -> bool {
    &&& new.bind_addr == old.bind_addr
    &&& new.default_token == old.default_token
    &&& new.transport == old.transport
    &&& new.heartbeat_interval == old.heartbeat_interval
    &&& new.services@ == services
}

impl Config {
    /// The configuration of a server resource's rathole server.
    pub fn runset(obj: Arc<Server>) -> (c: Config)
        ensures
            is_runset_of(c, *obj),
    {
        Config::runset_of(&obj)
    }

    /// The configuration of a server resource's rathole server.
    pub(crate) fn runset_of(obj: &Server) -> (c: Config)
        ensures
            is_runset_of(c, *obj),
    {
        let mut services = NamedTable::new();
        proof {
            reveal_strlit("dummy");
        }
        services.insert(String::from_str("dummy"), placeholder());
        let mut noise = NoiseConfig::default();
        noise.pattern = String::from_str("Noise_NK_25519_ChaChaPoly_BLAKE2s");
        let mut transport = TransportConfig::default();
        transport.transport_type = TransportType::Noise;
        transport.noise = Some(noise);
        Config {
            client: None,
            server: Some(
                ServerConfig {
                    bind_addr: format_host_port(&obj.spec.bind_addr.host, obj.spec.bind_addr.port),
                    default_token: None,
                    services: services,
                    transport: transport,
                    heartbeat_interval: obj.spec.heartbeat_interval as u64,
                },
            ),
        }
    }

    /// Adds each of the client services `dat` to the server part, each in
    /// place of any service of the same name.
    pub fn add_services(&mut self, dat: Vec<ServiceConfig>)
        requires
            dat.len() > 0 ==> old(self).server is Some,
        ensures
            final(self).client == old(self).client,
            dat.len() == 0 ==> *final(self) == *old(self),
            dat.len() > 0 ==> (final(self).server matches Some(s) && server_with_services(
                old(self).server->0,
                s,
                with_services(old(self).server->0.services@, dat@),
            )),
    {
        let ghost start = *self;
        let mut i: usize = 0;
        while i < dat.len()
            invariant
                i <= dat@.len(),
                dat@.len() > 0 ==> start.server is Some,
                self.client == start.client,
                i == 0 ==> *self == start,
                i > 0 ==> (self.server matches Some(s) && server_with_services(
                    start.server->0,
                    s,
                    with_services(start.server->0.services@, dat@.take(i as int)),
                )),
            decreases dat@.len() - i,
        {
            let d = &dat[i];
            let entry = ServerServiceConfig {
                service_type: ServiceType::Tcp,
                name: d.name.clone(),
                bind_addr: format_host_port(&d.local_addr.host, d.local_addr.port),
                token: d.token.key.clone(),
                nodelay: Some(d.nodelay),
            };
            let key = d.name.clone();
            proof {
                assert(dat@.take(i + 1).drop_last() == dat@.take(i as int));
                assert(dat@.take(i + 1).last() == dat@[i as int]);
                assert(entry@ == server_service_of(dat@[i as int]));
            }
            match &mut self.server {
                Some(s) => {
                    s.services.insert(key, entry);
                },
                None => {},
            }
            proof {
                let before = with_services(start.server->0.services@, dat@.take(i as int));
                assert(self.server->0.services@ == before.insert(key@, entry@));
                assert(self.server->0.services@ == with_services(start.server->0.services@, dat@.take(i + 1)));
            }
            i = i + 1;
        }
        proof {
            assert(dat@.take(dat@.len() as int) == dat@);
        }
    }
}

/// Adding services leaves every name that none of them has as it was.
pub proof fn lemma_with_services_untouched(
    m: Map<Seq<char>, ServerServiceConfigView>,
    ds: Seq<ServiceConfig>,
    name: Seq<char>,
)
    requires
        forall|i: int| 0 <= i < ds.len() ==> (#[trigger] ds[i]).name@ != name,
    ensures
        with_services(m, ds).contains_key(name) == m.contains_key(name),
        m.contains_key(name) ==> with_services(m, ds)[name] == m[name],
    decreases ds.len(),
{
    if ds.len() > 0 {
        let prefix = ds.drop_last();
        assert forall|i: int| 0 <= i < prefix.len() implies (#[trigger] prefix[i]).name@ != name by {
            assert(prefix[i] == ds[i]);
        }
        assert(ds[ds.len() - 1].name@ != name);
        lemma_with_services_untouched(m, prefix, name);
    }
}

/// After adding services in turn, the name of one of them holds the service
/// of the last one with that name.
pub proof fn lemma_with_services_last(
    m: Map<Seq<char>, ServerServiceConfigView>,
    ds: Seq<ServiceConfig>,
    i: int,
)
    requires
        0 <= i < ds.len(),
        forall|j: int| i < j < ds.len() ==> (#[trigger] ds[j]).name@ != ds[i].name@,
    ensures
        with_services(m, ds).contains_key(ds[i].name@),
        with_services(m, ds)[ds[i].name@] == server_service_of(ds[i]),
    decreases ds.len(),
{
    if i < ds.len() - 1 {
        let prefix = ds.drop_last();
        assert(prefix[i] == ds[i]);
        assert forall|j: int| i < j < prefix.len() implies (#[trigger] prefix[j]).name@ != prefix[i].name@ by {
            assert(prefix[j] == ds[j]);
        }
        assert(ds[ds.len() - 1].name@ != ds[i].name@);
        lemma_with_services_last(m, prefix, i);
    }
}

} // verus!
