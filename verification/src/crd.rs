//! The custom resources of the operator: a rathole `Server` and a rathole
//! `Client` that points at one, as the cluster holds them.
use vstd::prelude::*;

use crate::k8s::ObjectMeta;

verus! {

/// The API group and version of both custom resources.
pub open spec fn api_version_spec() -> Seq<char> {
    "rathole.mrchypark.github.io/v1alpha1"@
}

/// What a `Client` asks for: the server it belongs to, where its own
/// configuration goes, and the services it exposes.
#[derive(Debug, Clone, PartialEq)]
pub struct ClientSpec {
    pub server_ref: String,
    pub config_to: ConfigTo,
    /// Timeout for the heartbeat signal in seconds.
    pub heartbeat_timeout: i32,
    pub retry_interval: i32,
    pub services: Vec<ServiceConfig>,
}

/// Where the configuration of a client is written.
#[derive(Debug, Clone, PartialEq)]
pub struct ConfigTo {
    pub config_type: ClientConfigType,
    pub name: Option<String>,
    pub namespace: Option<String>,
}

/// The kind of object that holds a client's configuration.
#[derive(Debug, Clone, Copy, PartialEq, Eq, Structural)]
pub enum ClientConfigType {
    Secret,
}

/// The kind of object that holds a client's configuration when none is given.
pub fn client_config_type_defualt() -> (t: ClientConfigType)
    ensures
        t == ClientConfigType::Secret,
{
    ClientConfigType::Secret
}

/// One service of a client: its local address and the token that guards it.
#[derive(Debug, Clone, PartialEq)]
pub struct ServiceConfig {
    pub name: String,
    pub local_addr: Uri,
    pub service_type: Option<ServiceType>,
    pub nodelay: bool,
    pub retry_interval: i32,
    pub token: Token,
}

/// The protocol of a service.
#[derive(Debug, Clone, Copy, PartialEq, Eq, Structural)]
pub enum ServiceType {
    Tcp,
    Udp,
}

/// `nodelay` of a service when none is given.
pub fn nodelay_default() -> (b: bool)
    ensures
        b,
{
    true
}

/// The retry interval, in seconds, when none is given.
pub fn retry_interval_default() -> (n: i32)
    ensures
        n == 1,
{
    1
}

/// The state of a client as the operator reports it.
#[derive(Debug, Clone, PartialEq)]
pub struct ClientStatus {
    pub server_ref: String,
    pub server_config_ok: bool,
    pub server_deploy_ok: bool,
}

/// What a `Server` asks for: where it listens and how its transport is set up.
#[derive(Debug, Clone, PartialEq)]
pub struct ServerSpec {
    pub bind_addr: Uri,
    pub default_token: Option<String>,
    pub expose_addr: Uri,
    pub heartbeat_interval: i32,
    pub transport: Transport,
}

/// A host and a port.
#[derive(Debug, Clone, PartialEq)]
pub struct Uri {
    pub host: String,
    pub port: i32,
}

/// The heartbeat interval of a server, in seconds, when none is given.
pub fn heartbeat_interval_default() -> (n: i32)
    ensures
        n == 30,
{
    30
}

/// The heartbeat timeout of a client, in seconds, when none is given.
pub fn heartbeat_timeout_default() -> (n: i32)
    ensures
        n == 30,
{
    30
}

/// The transport of a server.
#[derive(Debug, Clone, PartialEq)]
pub struct Transport {
    pub transport_type: TransportType,
    pub tcp: Option<String>,
    pub tls: Option<String>,
    pub websocket: Option<String>,
    pub noise: Option<NoiseConfig>,
}

/// The Noise settings of a server's transport.
#[derive(Debug, Clone, PartialEq)]
pub struct NoiseConfig {
    pub pattern: String,
    pub noisekey: Token,
}

/// The Noise handshake pattern used when none is given.
pub open spec fn noise_pattern_spec() -> Seq<char> {
    "Noise_NK_25519_ChaChaPoly_BLAKE2s"@
}

/// The Noise handshake pattern used when none is given.
pub fn noise_pattern_default() -> (s: String)
    ensures
        s@ == noise_pattern_spec(),
{
    String::from_str("Noise_NK_25519_ChaChaPoly_BLAKE2s")
}

/// A token: given directly, or by reference to a key of a secret.
#[derive(Debug, Clone, PartialEq)]
pub struct Token {
    pub secret_type: Option<SecretType>,
    pub key: Option<String>,
    pub secret_ref: Option<SecretRef>,
}

/// A key of a secret.
#[derive(Debug, Clone, PartialEq)]
pub struct SecretRef {
    pub name: String,
    pub key: String,
}

/// The transports a server can use.
#[derive(Debug, Clone, Copy, PartialEq, Eq, Structural)]
pub enum TransportType {
    Noise,
    TCP,
    TLS,
    Websocket,
}

/// How a token is given.
#[derive(Debug, Clone, Copy, PartialEq, Eq, Structural)]
pub enum SecretType {
    Direct,
    Reference,
}

/// The state of a server as the operator reports it.
#[derive(Debug, Clone, PartialEq)]
pub struct ServerStatus {
    pub is_ready: bool,
    pub expose_addr: String,
}

/// The `Client` custom resource.
#[derive(Debug, Clone, PartialEq)]
pub struct Client {
    pub metadata: ObjectMeta,
    pub spec: ClientSpec,
    pub status: Option<ClientStatus>,
}

/// The `Server` custom resource.
#[derive(Debug, Clone, PartialEq)]
pub struct Server {
    pub metadata: ObjectMeta,
    pub spec: ServerSpec,
    pub status: Option<ServerStatus>,
}

} // verus!
