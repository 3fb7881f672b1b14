//! The decisions of the two reconcilers. Each reconcile is a short exchange
//! with the cluster: the reconciler asks for an object or a patch, hears back,
//! and decides what to ask next, until it finishes with a requeue or a
//! failure. The functions here take what was heard and give the next request.
use vstd::prelude::*;

use crate::config::AppConfig;
use crate::crd::{Client, ClientStatus, SecretType, Server, ServiceConfig};
use crate::k8s::{Deployment, Secret};
use crate::method::{
    client_service_of, is_client_config_secret, is_server_config_secret, is_server_deployment, server_service_from_client,
};
use crate::rathole::{
    has_server_settings_of, placeholder_services, server_with_services, ClientServiceConfig, ClientServiceConfigView, Config,
    ServerServiceConfigView,
};
use crate::table::NamedTable;
use crate::text::opt_view;

verus! {

/// Why a reconcile failed. Where the failure is that of a request to the
/// cluster, the request's own error is kept by whoever made the request.
#[derive(Debug, Clone, PartialEq)]
pub enum Failure {
    /// A field that the object must have is missing.
    MissingObjectKey(String),
    /// Patching the deployment failed.
    DeplymentCreationFailed,
    /// Patching a secret failed.
    SecretCreationFailed,
    /// The server that a client names could not be read.
    NoTargetServerConfig,
    /// The deployment of the server that a client names could not be read.
    NoTargetServer,
    /// A secret that holds a token could not be read.
    NoTargetToken,
    /// The secret with the configuration of the server could not be read.
    NoServerConfigFound,
    /// The clients in the namespace of a server could not be listed.
    ClientListFailed,
    /// Any other failure, with its message.
    DefaultError(String),
}

/// How a reconcile ends.
#[derive(Debug, Clone, PartialEq)]
pub enum Outcome {
    /// Done; reconcile again after this many seconds.
    Requeue(u64),
    /// Failed.
    Fail(Failure),
}

/// The seconds after which a reconcile that went through is run again.
pub open spec fn requeue_after_success() -> u64 {
    10
}

/// The seconds after which a failed reconcile is run again.
pub fn error_policy_requeue_secs() -> (n: u64)
    ensures
        n == 5,
{
    5
}

/// The outcome is a failure for a missing field with this path.
pub open spec fn fails_missing(o: Outcome, key: Seq<char>) -> bool {
    o matches Outcome::Fail(Failure::MissingObjectKey(k)) && k@ == key
}

// ---------------------------------------------------------------------------
// Server
// ---------------------------------------------------------------------------

/// The client services collected so far are each filed under their own name.
pub open spec fn names_match(m: Map<Seq<char>, ClientServiceConfigView>) -> bool {
    forall|k: Seq<char>| #[trigger] m.contains_key(k) ==> m[k].name == k
}

/// Where reading the clients of a server stops: at the token of a service
/// that lies in a secret (the client at `ci`, its service at `i`, the services
/// collected so far of that client and of the clients before it), or past the
/// last client, with the services of all of them.
pub enum ClientScan {
    Fetch(int, int, Map<Seq<char>, ClientServiceConfigView>, Map<Seq<char>, ClientServiceConfigView>),
    Done(Map<Seq<char>, ClientServiceConfigView>),
}

/// Reads the clients of a server on, from the client at `ci` and its service
/// at `i`, the services of that client collected so far being `buf` and those
/// of the clients before it `acc`. A client the server does not serve is
/// passed over. A client's services are collected as its own reconcile
/// collects them: those with direct tokens at once, up to the next one whose
/// token lies in a secret, which is then read. A client whose own reconcile
/// would not go through (a direct token without a key, or a token in no named
/// secret) gives none of its services; a client that does adds all of its
/// services, in place of any earlier one of the same name.
pub open spec fn scan_clients(
    server: Server,
    clients: Seq<Client>,
    ci: int,
    i: int,
    buf: Map<Seq<char>, ClientServiceConfigView>,
    acc: Map<Seq<char>, ClientServiceConfigView>,
) -> ClientScan
    decreases clients.len() - ci,
{
    if ci < 0 || ci >= clients.len() {
        ClientScan::Done(acc)
    } else if !serves(server, clients[ci]) {
        scan_clients(server, clients, ci + 1, 0, Map::empty(), acc)
    } else {
        let services = clients[ci].spec.services@;
        let stop = next_stop(services, i);
        if !direct_keys_present(services, i, stop) {
            scan_clients(server, clients, ci + 1, 0, Map::empty(), acc)
        } else if stop >= services.len() {
            scan_clients(
                server,
                clients,
                ci + 1,
                0,
                Map::empty(),
                acc.union_prefer_right(with_direct_tokens(buf, services, i, stop)),
            )
        } else if services[stop].token.secret_ref is Some {
            ClientScan::Fetch(ci, stop, with_direct_tokens(buf, services, i, stop), acc)
        } else {
            scan_clients(server, clients, ci + 1, 0, Map::empty(), acc)
        }
    }
}

/// Reads the clients on once the token of the service at `i` of the client
/// at `ci` was looked up: the value found guards the service; a secret
/// without the key leaves the service out; a secret that could not be read
/// leaves the whole client out.
pub open spec fn scan_after_token(
    server: Server,
    clients: Seq<Client>,
    ci: int,
    i: int,
    buf: Map<Seq<char>, ClientServiceConfigView>,
    acc: Map<Seq<char>, ClientServiceConfigView>,
    answer: Result<Option<String>, ()>,
) -> ClientScan {
    let s = clients[ci].spec.services@[i];
    match answer {
        Ok(Some(value)) => scan_clients(
            server,
            clients,
            ci,
            i + 1,
            buf.insert(s.name@, client_service_of(s, value@)),
            acc,
        ),
        Ok(None) => scan_clients(server, clients, ci, i + 1, buf, acc),
        Err(_) => scan_clients(server, clients, ci + 1, 0, Map::empty(), acc),
    }
}

/// Where a server reconcile stands.
#[derive(Debug, Clone, PartialEq)]
pub enum ServerStep {
    /// The clients in the server's namespace were asked for.
    AwaitClients,
    /// The secret that holds the token of service `service` of client
    /// `client` was asked for; `collected` holds the services of that client
    /// so far, `served` those of the clients before it.
    AwaitClientToken {
        clients: Vec<Client>,
        client: usize,
        service: usize,
        collected: NamedTable<ClientServiceConfig>,
        served: NamedTable<ClientServiceConfig>,
    },
    /// The configuration to write was handed out to be written as text.
    AwaitSerialized,
    /// The deployment was sent; its patch is awaited, and then the secret goes.
    AwaitDeploymentPatch { secret: Secret },
    /// The secret was sent; its patch is awaited.
    AwaitSecretPatch,
}

/// A server reconcile under way: where it stands, and the namespace and name
/// of what it patches.
#[derive(Debug, Clone, PartialEq)]
pub struct ServerReconcile {
    pub step: ServerStep,
    pub namespace: String,
    pub name: String,
}

/// What the cluster, or the writer of configuration files, answered to the
/// last request of a server reconcile.
#[derive(Debug, PartialEq)]
pub enum ServerEvent {
    /// The clients in the namespace, or `Err` where they could not be listed.
    ClientsListed(Result<Vec<Client>, ()>),
    /// The text under the asked key of the asked secret (`None` where the
    /// secret has no data or no such key), or `Err` where it could not be read.
    TokenFetched(Result<Option<String>, ()>),
    /// The text of the configuration file, as bytes.
    Serialized(Vec<u8>),
    /// Whether the patch went through.
    Patched(bool),
}

/// What a server reconcile asks for next.
#[derive(Debug, Clone, PartialEq)]
pub enum ServerAction {
    /// List the clients in this namespace.
    ListClients { namespace: String },
    /// Read the value under `key` of the secret of this name.
    GetSecretKey { namespace: String, name: String, key: String },
    /// Write this configuration as the text of a configuration file.
    Serialize { config: Config },
    /// Apply this deployment under this name.
    PatchDeployment { namespace: String, name: String, deployment: Deployment },
    /// Apply this secret under this name.
    PatchSecret { namespace: String, name: String, secret: Secret },
    /// Stop here.
    Finish(Outcome),
}

impl ServerReconcile {
    /// The state is one that a reconcile of `obj` can reach: in its
    /// namespace, under its name; waiting, if for a token, at a served
    /// client's service whose token lies in a named secret.
    pub open spec fn valid_for(self, obj: Server) -> bool {
        &&& obj.metadata.namespace matches Some(ns) && self.namespace@ == ns@
        &&& obj.metadata.name matches Some(n) && self.name@ == n@
        &&& obj.metadata.uid is Some
        &&& self.step matches ServerStep::AwaitClientToken { clients, client, service, collected, served }
            ==> {
            &&& client < clients@.len()
            &&& serves(obj, clients@[client as int])
            &&& service < clients@[client as int].spec.services@.len()
            &&& clients@[client as int].spec.services@[service as int].token.secret_ref is Some
            &&& names_match(collected@)
            &&& names_match(served@)
        }
    }

    /// What was answered fits what was asked.
    pub open spec fn expects(self, event: ServerEvent) -> bool {
        match self.step {
            ServerStep::AwaitClients => event is ClientsListed,
            ServerStep::AwaitClientToken { .. } => event is TokenFetched,
            ServerStep::AwaitSerialized => event is Serialized,
            _ => event is Patched,
        }
    }
}

/// The configuration that the operator writes for a server resource: the
/// server's settings, and the services of the clients it serves (`served`),
/// with the placeholder where none has its name.
pub open spec fn is_server_config_with(config: Config, obj: Server, served: Map<Seq<char>, ClientServiceConfigView>) -> bool {
    &&& config.client is None
    &&& config.server matches Some(s) && has_server_settings_of(s, obj) && s.services@
        == placeholder_services().union_prefer_right(server_services_from(served))
}

/// Where the reading of the clients leads: to the secret that holds the next
/// token, or, past the last client, to the configuration with their services.
pub open spec fn srv_goes_on(
    obj: Server,
    state: ServerReconcile,
    clients: Seq<Client>,
    scan: ClientScan,
    r: (Option<ServerReconcile>, ServerAction),
) -> bool {
    match scan {
        ClientScan::Fetch(ci, i, buf, acc) => {
            let sr = clients[ci].spec.services@[i].token.secret_ref->0;
            &&& r.0 matches Some(st) && st.namespace == state.namespace && st.name == state.name && (
            st.step matches ServerStep::AwaitClientToken { clients: cl, client, service, collected, served }
                && cl@ == clients && client == ci && service == i && collected@ == buf && served@
                == acc)
            &&& r.1 matches ServerAction::GetSecretKey { namespace, name, key } && namespace
                == state.namespace && name@ == sr.name@ && key@ == sr.key@
        },
        ClientScan::Done(acc) => {
            &&& r.0 == Some(ServerReconcile { step: ServerStep::AwaitSerialized, ..state })
            &&& r.1 matches ServerAction::Serialize { config } && is_server_config_with(
                config,
                obj,
                acc,
            )
        },
    }
}

/// Starts the reconcile of a server: the clients in its namespace are listed
/// first, so that the configuration holds the services of those it serves. A
/// server without a namespace fails at once.
pub fn srv_reconcile_begin(obj: &Server) -> (r: (Option<ServerReconcile>, ServerAction))
    requires
        obj.metadata.name is Some,
        obj.metadata.uid is Some,
    ensures
        obj.metadata.namespace is None ==> r.0 is None && (r.1 matches ServerAction::Finish(o)
            && fails_missing(o, ".metadata.namespace"@)),
        obj.metadata.namespace matches Some(ns) ==> {
            &&& r.0 matches Some(st) && st.step == ServerStep::AwaitClients && st.valid_for(*obj)
            &&& r.1 matches ServerAction::ListClients { namespace } && namespace@ == ns@
        },
{
    let namespace = match &obj.metadata.namespace {
        Some(ns) => ns.clone(),
        None => {
            return (
                None,
                ServerAction::Finish(
                    Outcome::Fail(
                        Failure::MissingObjectKey(String::from_str(".metadata.namespace")),
                    ),
                ),
            );
        },
    };
    let name = match &obj.metadata.name {
        Some(n) => n.clone(),
        None => vstd::pervasive::unreached(),
    };
    let state = ServerReconcile { step: ServerStep::AwaitClients, namespace: namespace.clone(), name };
    (Some(state), ServerAction::ListClients { namespace })
}

/// How a server reconcile goes on from `state` on the answer `event`: the
/// clients it serves are read, with the tokens of their services; the
/// configuration with their services is written as text; then the
/// deployment goes, then the secret with that text, both under the server's
/// name; then a requeue. Clients that cannot be listed, or a failed patch, end
/// the reconcile with its failure.
pub open spec fn srv_transition(
    obj: Server,
    env: AppConfig,
    state: ServerReconcile,
    event: ServerEvent,
    r: (Option<ServerReconcile>, ServerAction),
) -> bool {
    match state.step {
        ServerStep::AwaitClients => match event {
            ServerEvent::ClientsListed(Ok(clients)) => srv_goes_on(
                obj,
                state,
                clients@,
                scan_clients(obj, clients@, 0, 0, Map::empty(), Map::empty()),
                r,
            ),
            _ => r.0 is None && r.1 == ServerAction::Finish(Outcome::Fail(Failure::ClientListFailed)),
        },
        ServerStep::AwaitClientToken { clients, client, service, collected, served } => match event {
            ServerEvent::TokenFetched(answer) => srv_goes_on(
                obj,
                state,
                clients@,
                scan_after_token(
                    obj,
                    clients@,
                    client as int,
                    service as int,
                    collected@,
                    served@,
                    answer,
                ),
                r,
            ),
            _ => false,
        },
        ServerStep::AwaitSerialized => match event {
            ServerEvent::Serialized(bytes) => {
                &&& r.0 matches Some(st) && st.namespace == state.namespace && st.name == state.name
                    && (st.step matches ServerStep::AwaitDeploymentPatch { secret }
                    && is_server_config_secret(secret, obj, env, bytes@))
                &&& r.1 matches ServerAction::PatchDeployment { namespace, name, deployment }
                    && namespace == state.namespace && name == state.name && is_server_deployment(
                    deployment,
                    obj,
                    env,
                )
            },
            _ => false,
        },
        ServerStep::AwaitDeploymentPatch { secret } => if event == ServerEvent::Patched(true) {
            &&& r.0 == Some(ServerReconcile { step: ServerStep::AwaitSecretPatch, ..state })
            &&& r.1 == ServerAction::PatchSecret {
                namespace: state.namespace,
                name: state.name,
                secret: secret,
            }
        } else {
            r.0 is None && r.1 == ServerAction::Finish(Outcome::Fail(Failure::DeplymentCreationFailed))
        },
        ServerStep::AwaitSecretPatch => if event == ServerEvent::Patched(true) {
            r.0 is None && r.1 == ServerAction::Finish(Outcome::Requeue(requeue_after_success()))
        } else {
            r.0 is None && r.1 == ServerAction::Finish(Outcome::Fail(Failure::SecretCreationFailed))
        },
    }
}

/// Collects the direct tokens of `services` from `i` up to the next service
/// whose token is not given directly; `false` where one of them has no key.
fn collect_direct_tokens(
    services: &Vec<ServiceConfig>,
    i: usize,
    buf: NamedTable<ClientServiceConfig>,
) -> (r: (bool, usize, NamedTable<ClientServiceConfig>))
    requires
        i <= services@.len(),
        names_match(buf@),
    ensures
        r.0 == direct_keys_present(services@, i as int, next_stop(services@, i as int)),
        r.1 == next_stop(services@, i as int),
        r.0 ==> r.2@ == with_direct_tokens(buf@, services@, i as int, r.1 as int),
        names_match(r.2@),
{
    proof {
        lemma_next_stop(services@, i as int);
    }
    let ghost m = buf@;
    let mut buf = buf;
    let mut j: usize = i;
    while j < services.len() && services[j].token.secret_type == Some(SecretType::Direct)
        invariant
            i <= j <= services@.len(),
            next_stop(services@, j as int) == next_stop(services@, i as int),
            i <= next_stop(services@, i as int) <= services@.len(),
            forall|k: int| i <= k < next_stop(services@, i as int) ==> is_direct(#[trigger] services@[k]),
            forall|k: int| i <= k < j ==> (#[trigger] services@[k]).token.key is Some,
            buf@ == with_direct_tokens(m, services@, i as int, j as int),
            names_match(buf@),
        decreases services@.len() - j,
    {
        proof {
            lemma_next_stop(services@, j as int);
        }
        let s = &services[j];
        let key = match &s.token.key {
            Some(k) => k.clone(),
            None => {
                return (false, next_stop_exec(services, j), buf);
            },
        };
        buf.insert(s.name.clone(), s.to_config(key));
        j = j + 1;
    }
    proof {
        lemma_next_stop(services@, j as int);
    }
    (true, j, buf)
}

/// The first service at or after `i` whose token is not given directly.
fn next_stop_exec(services: &Vec<ServiceConfig>, i: usize) -> (stop: usize)
    requires
        i <= services@.len(),
    ensures
        stop == next_stop(services@, i as int),
{
    proof {
        lemma_next_stop(services@, i as int);
    }
    let mut j: usize = i;
    while j < services.len() && services[j].token.secret_type == Some(SecretType::Direct)
        invariant
            i <= j <= services@.len(),
            next_stop(services@, j as int) == next_stop(services@, i as int),
        decreases services@.len() - j,
    {
        j = j + 1;
    }
    j
}

/// Adds the services of `more` to `acc`, each in place of any of the same name.
fn merge_services(acc: &mut NamedTable<ClientServiceConfig>, more: &NamedTable<ClientServiceConfig>)
    requires
        names_match(old(acc)@),
        names_match(more@),
    ensures
        final(acc)@ == old(acc)@.union_prefer_right(more@),
        names_match(final(acc)@),
{
    let ghost start = acc@;
    let entries = more.entries();
    proof {
        crate::table::lemma_entries_map_index(entries@);
    }
    let mut k: usize = 0;
    while k < entries.len()
        invariant
            k <= entries@.len(),
            more@ == crate::table::entries_map(entries@),
            crate::table::names_distinct(entries@),
            names_match(more@),
            names_match(start),
            acc@ == start.union_prefer_right(crate::table::entries_map(entries@.take(k as int))),
            names_match(acc@),
        decreases entries@.len() - k,
    {
        let name = entries[k].0.clone();
        let value = entries[k].1.clone();
        proof {
            crate::table::lemma_entries_map_index(entries@);
            assert(more@.contains_key(entries@[k as int].0@));
            assert(more@[entries@[k as int].0@] == entries@[k as int].1@);
            let prefix = entries@.take(k as int);
            let next = entries@.take(k + 1);
            assert(next.drop_last() == prefix);
            assert(next.last() == entries@[k as int]);
            if k == 0 {
                assert(prefix =~= Seq::<(String, ClientServiceConfig)>::empty());
            }
        }
        acc.insert(name, value);
        proof {
            let prefix = entries@.take(k as int);
            let next = entries@.take(k + 1);
            assert(acc@ =~= start.union_prefer_right(crate::table::entries_map(next)));
        }
        k = k + 1;
    }
    proof {
        assert(entries@.take(entries@.len() as int) == entries@);
    }
}

/// What reading the clients on gave: the client and service whose token is
/// to be looked up next, with the services collected so far, or none.
pub open spec fn scan_matches(
    scan: ClientScan,
    next: Option<(usize, usize)>,
    buf: Map<Seq<char>, ClientServiceConfigView>,
    acc: Map<Seq<char>, ClientServiceConfigView>,
) -> bool {
    match scan {
        ClientScan::Fetch(c, i, b, a) => next matches Some((c2, i2)) && c2 == c && i2 == i && buf == b
            && acc == a,
        ClientScan::Done(a) => next is None && acc == a,
    }
}

/// Reads the clients on (see `scan_clients`), up to the next token to look up
/// or past the last client.
fn scan_clients_exec(
    obj: &Server,
    clients: &Vec<Client>,
    ci0: usize,
    i0: usize,
    buf0: NamedTable<ClientServiceConfig>,
    acc0: NamedTable<ClientServiceConfig>,
) -> (r: (Option<(usize, usize)>, NamedTable<ClientServiceConfig>, NamedTable<ClientServiceConfig>))
    requires
        ci0 <= clients@.len(),
        ci0 < clients@.len() ==> i0 <= clients@[ci0 as int].spec.services@.len(),
        names_match(buf0@),
        names_match(acc0@),
    ensures
        names_match(r.1@),
        names_match(r.2@),
        scan_matches(scan_clients(*obj, clients@, ci0 as int, i0 as int, buf0@, acc0@), r.0, r.1@, r.2@),
        r.0 matches Some((c, s)) ==> {
            &&& c < clients@.len()
            &&& serves(*obj, clients@[c as int])
            &&& s < clients@[c as int].spec.services@.len()
            &&& clients@[c as int].spec.services@[s as int].token.secret_ref is Some
        },
{
    let ghost goal = scan_clients(*obj, clients@, ci0 as int, i0 as int, buf0@, acc0@);
    let mut ci = ci0;
    let mut i = i0;
    let mut buf = buf0;
    let mut acc = acc0;
    while ci < clients.len()
        invariant
            ci <= clients@.len(),
            ci < clients@.len() ==> i <= clients@[ci as int].spec.services@.len(),
            names_match(buf@),
            names_match(acc@),
            goal == scan_clients(*obj, clients@, ci as int, i as int, buf@, acc@),
            goal == scan_clients(*obj, clients@, ci0 as int, i0 as int, buf0@, acc0@),
        decreases clients@.len() - ci,
    {
        let client = &clients[ci];
        if !client_belongs_to(client, obj) {
            ci = ci + 1;
            i = 0;
            buf = NamedTable::new();
            continue;
        }
        let services = &client.spec.services;
        let (ok, stop, collected) = collect_direct_tokens(services, i, buf);
        proof {
            lemma_next_stop(services@, i as int);
        }
        if !ok {
            ci = ci + 1;
            i = 0;
            buf = NamedTable::new();
            continue;
        }
        if stop >= services.len() {
            merge_services(&mut acc, &collected);
            ci = ci + 1;
            i = 0;
            buf = NamedTable::new();
            continue;
        }
        if services[stop].token.secret_ref.is_some() {
            return (Some((ci, stop)), collected, acc);
        }
        ci = ci + 1;
        i = 0;
        buf = NamedTable::new();
    }
    (None, buf, acc)
}

/// Where the reading of the clients leads (see `srv_goes_on`).
fn srv_go_on(
    obj: &Server,
    state: ServerReconcile,
    clients: Vec<Client>,
    ci: usize,
    i: usize,
    buf: NamedTable<ClientServiceConfig>,
    acc: NamedTable<ClientServiceConfig>,
) -> (r: (Option<ServerReconcile>, ServerAction))
    requires
        state.valid_for(*obj),
        ci <= clients@.len(),
        ci < clients@.len() ==> i <= clients@[ci as int].spec.services@.len(),
        names_match(buf@),
        names_match(acc@),
    ensures
        srv_goes_on(*obj, state, clients@, scan_clients(*obj, clients@, ci as int, i as int, buf@, acc@), r),
        r.0 matches Some(st) ==> st.valid_for(*obj),
{
    let (next, collected, served) = scan_clients_exec(obj, &clients, ci, i, buf, acc);
    match next {
        Some((c, s)) => {
            let sr = match &clients[c].spec.services[s].token.secret_ref {
                Some(sr) => sr,
                None => vstd::pervasive::unreached(),
            };
            let action = ServerAction::GetSecretKey {
                namespace: state.namespace.clone(),
                name: sr.name.clone(),
                key: sr.key.clone(),
            };
            let step = ServerStep::AwaitClientToken { clients, client: c, service: s, collected, served };
            (Some(ServerReconcile { step, ..state }), action)
        },
        None => {
            let mut config = Config::runset_of(obj);
            proof {
                assert(served@ != Map::<Seq<char>, ClientServiceConfigView>::empty() ==> config.server is Some);
            }
            add_collected(&mut config, &served);
            proof {
                if served@ == Map::<Seq<char>, ClientServiceConfigView>::empty() {
                    assert(server_services_from(served@) =~= Map::<Seq<char>, ServerServiceConfigView>::empty());
                    assert(placeholder_services().union_prefer_right(server_services_from(served@))
                        =~= placeholder_services());
                }
            }
            (
                Some(ServerReconcile { step: ServerStep::AwaitSerialized, ..state }),
                ServerAction::Serialize { config },
            )
        },
    }
}

/// The next step of a server reconcile, on the answer `event` to what it
/// asked for last (see `srv_transition`).
pub fn srv_reconcile_step(obj: &Server, env: &AppConfig, state: ServerReconcile, event: ServerEvent) -> (r: (
    Option<ServerReconcile>,
    ServerAction,
))
    requires
        state.valid_for(*obj),
        state.expects(event),
    ensures
        srv_transition(*obj, *env, state, event, r),
        r.0 matches Some(st) ==> st.valid_for(*obj),
{
    match state.step {
        ServerStep::AwaitClients => {
            match event {
                ServerEvent::ClientsListed(Ok(clients)) => {
                    let st = ServerReconcile { step: ServerStep::AwaitClients, ..state };
                    srv_go_on(obj, st, clients, 0, 0, NamedTable::new(), NamedTable::new())
                },
                _ => (None, ServerAction::Finish(Outcome::Fail(Failure::ClientListFailed))),
            }
        },
        ServerStep::AwaitClientToken { clients, client, service, collected, served } => {
            let st = ServerReconcile {
                step: ServerStep::AwaitClients,
                namespace: state.namespace,
                name: state.name,
            };
            match event {
                ServerEvent::TokenFetched(Ok(Some(value))) => {
                    let count = clients[client].spec.services.len();
                    proof {
                        assert(service < count);
                    }
                    let s = &clients[client].spec.services[service];
                    let mut collected = collected;
                    collected.insert(s.name.clone(), s.to_config(value));
                    srv_go_on(obj, st, clients, client, service + 1, collected, served)
                },
                ServerEvent::TokenFetched(Ok(None)) => {
                    let count = clients[client].spec.services.len();
                    proof {
                        assert(service < count);
                    }
                    srv_go_on(obj, st, clients, client, service + 1, collected, served)
                },
                _ => {
                    let count = clients.len();
                    proof {
                        assert(client < count);
                    }
                    srv_go_on(obj, st, clients, client + 1, 0, NamedTable::new(), served)
                },
            }
        },
        ServerStep::AwaitSerialized => {
            match event {
                ServerEvent::Serialized(bytes) => {
                    let secret = obj.to_config_secret(env, bytes);
                    let deployment = obj.to_deployment(env);
                    let action = ServerAction::PatchDeployment {
                        namespace: state.namespace.clone(),
                        name: state.name.clone(),
                        deployment,
                    };
                    (
                        Some(
                            ServerReconcile {
                                step: ServerStep::AwaitDeploymentPatch { secret },
                                namespace: state.namespace,
                                name: state.name,
                            },
                        ),
                        action,
                    )
                },
                _ => vstd::pervasive::unreached(),
            }
        },
        ServerStep::AwaitDeploymentPatch { secret } => {
            match event {
                ServerEvent::Patched(true) => {
                    let action = ServerAction::PatchSecret {
                        namespace: state.namespace.clone(),
                        name: state.name.clone(),
                        secret,
                    };
                    (
                        Some(
                            ServerReconcile {
                                step: ServerStep::AwaitSecretPatch,
                                namespace: state.namespace,
                                name: state.name,
                            },
                        ),
                        action,
                    )
                },
                _ => (None, ServerAction::Finish(Outcome::Fail(Failure::DeplymentCreationFailed))),
            }
        },
        ServerStep::AwaitSecretPatch => {
            match event {
                ServerEvent::Patched(true) => (None, ServerAction::Finish(Outcome::Requeue(10))),
                _ => (None, ServerAction::Finish(Outcome::Fail(Failure::SecretCreationFailed))),
            }
        },
    }
}

// ---------------------------------------------------------------------------
// Client
// ---------------------------------------------------------------------------

/// The message of the failure of a service whose token is to be read from a
/// secret that it does not name.
pub open spec fn missing_secret_ref_message() -> Seq<char> {
    "Secret type is set to Reference, but no data on SecretRef."@
}

/// Whether a service's token is given directly, rather than read from a secret.
pub open spec fn is_direct(s: ServiceConfig) -> bool {
    s.token.secret_type == Some(SecretType::Direct)
}

/// The first service at or after `i` whose token is not given directly (or
/// the number of services, where there is none).
pub open spec fn next_stop(services: Seq<ServiceConfig>, i: int) -> int
    decreases services.len() - i,
{
    if i < 0 || i >= services.len() {
        services.len() as int
    } else if is_direct(services[i]) {
        next_stop(services, i + 1)
    } else {
        i
    }
}

/// The services collected so far, with those from `i` up to `j` added in
/// turn, each with its direct token.
pub open spec fn with_direct_tokens(
    m: Map<Seq<char>, ClientServiceConfigView>,
    services: Seq<ServiceConfig>,
    i: int,
    j: int,
) -> Map<Seq<char>, ClientServiceConfigView>
    decreases j - i,
{
    if j <= i {
        m
    } else {
        with_direct_tokens(m, services, i, j - 1).insert(
            services[j - 1].name@,
            client_service_of(services[j - 1], services[j - 1].token.key->0@),
        )
    }
}

/// From `i` on, the services up to the next stop all have direct tokens, and
/// the stop, where it is a service, has not.
pub proof fn lemma_next_stop(services: Seq<ServiceConfig>, i: int)
    requires
        0 <= i <= services.len(),
    ensures
        i <= next_stop(services, i) <= services.len(),
        forall|k: int| i <= k < next_stop(services, i) ==> is_direct(#[trigger] services[k]),
        next_stop(services, i) < services.len() ==> !is_direct(services[next_stop(services, i)]),
    decreases services.len() - i,
{
    if i < services.len() && is_direct(services[i]) {
        lemma_next_stop(services, i + 1);
    }
}

/// Every service from `i` up to `j` whose token is given directly has one.
pub open spec fn direct_keys_present(services: Seq<ServiceConfig>, i: int, j: int) -> bool {
    forall|k: int| i <= k < j && is_direct(services[k]) ==> (#[trigger] services[k]).token.key is Some
}

/// The server services that collected client services become.
pub open spec fn server_services_from(m: Map<Seq<char>, ClientServiceConfigView>) -> Map<
    Seq<char>,
    ServerServiceConfigView,
> {
    Map::new(|k: Seq<char>| m.contains_key(k), |k: Seq<char>| server_service_from_client(m[k]))
}

/// Where a client reconcile stands.
#[derive(Debug, Clone, PartialEq)]
pub enum ClientStep {
    /// The server that the client names was asked for.
    AwaitServer,
    /// The deployment of that server was asked for.
    AwaitServerDeployment,
    /// The secret that holds the token of the service at this index was asked for.
    AwaitToken(usize),
    /// The secret that holds the server's configuration was asked for.
    AwaitServerConfig,
    /// The server's configuration, with the client's services, was sent.
    AwaitPatch,
    /// The client's own configuration secret was sent.
    AwaitClientSecretPatch,
    /// The client's status, recording what is missing, was sent; the
    /// reconcile then fails with this failure.
    AwaitStatusPatch(Failure),
}

/// A client reconcile under way: where it stands, its namespace, and the
/// services collected so far, by name.
#[derive(Debug, Clone, PartialEq)]
pub struct ClientReconcile {
    pub step: ClientStep,
    pub namespace: String,
    pub collected: NamedTable<ClientServiceConfig>,
}

/// What the cluster answered to the last request of a client reconcile.
#[derive(Debug, PartialEq)]
pub enum ClientEvent {
    /// Whether the object asked for was found.
    Fetched(bool),
    /// The text under the asked key of the asked secret (`None` where the
    /// secret has no data or no such key), or `Err` where it could not be read.
    TokenFetched(Result<Option<String>, ()>),
    /// The name of the secret with the server's configuration and that
    /// configuration, or `Err` where it could not be read.
    ServerConfigFetched(Result<(Option<String>, Config), ()>),
    /// Whether the patch went through.
    Patched(bool),
}

/// What a client reconcile asks for next.
#[derive(Debug, Clone, PartialEq)]
pub enum ClientAction {
    /// Read the server resource of this name.
    GetServer { namespace: String, name: String },
    /// Read the deployment of this name.
    GetDeployment { namespace: String, name: String },
    /// Read the value under `key` of the secret of this name.
    GetSecretKey { namespace: String, name: String, key: String },
    /// Read the secret of this name, which holds the server's configuration.
    GetServerConfig { namespace: String, name: String },
    /// Write this configuration into the secret of this name.
    PatchSecret { namespace: String, name: String, config: Config },
    /// Apply this secret, the client's own configuration, under this name.
    PatchClientSecret { namespace: String, name: String, secret: Secret },
    /// Write this status into the client of this name.
    PatchStatus { namespace: String, name: String, status: ClientStatus },
    /// Stop here.
    Finish(Outcome),
}

impl ClientReconcile {
    /// The state is one that a reconcile of `obj` can reach: in `obj`'s
    /// namespace, waiting at a service whose token is in a secret, with every
    /// collected service filed under its own name.
    pub open spec fn valid_for(self, obj: Client) -> bool {
        &&& obj.metadata.namespace matches Some(ns) && self.namespace@ == ns@
        &&& self.step matches ClientStep::AwaitToken(i) ==> {
            &&& i < obj.spec.services@.len()
            &&& !is_direct(obj.spec.services@[i as int])
            &&& obj.spec.services@[i as int].token.secret_ref is Some
        }
        &&& forall|k: Seq<char>| #[trigger]
            self.collected@.contains_key(k) ==> self.collected@[k].name == k
    }

    /// What the cluster answered fits what was asked.
    pub open spec fn expects(self, event: ClientEvent) -> bool {
        match self.step {
            ClientStep::AwaitServer => event is Fetched,
            ClientStep::AwaitServerDeployment => event is Fetched,
            ClientStep::AwaitToken(_) => event is TokenFetched,
            ClientStep::AwaitServerConfig => event is ServerConfigFetched,
            _ => event is Patched,
        }
    }
}

/// Where the reconcile goes once the services from `i` on are to be
/// handled, the ones collected so far being `m`: the direct tokens up to the
/// next service whose token is in a secret are collected, and then that
/// secret is asked for; or, if that service names no secret, the reconcile
/// fails; or, past the last service, the server's configuration is asked for.
pub open spec fn resumes_at(
    obj: Client,
    m: Map<Seq<char>, ClientServiceConfigView>,
    i: int,
    r: (Option<ClientReconcile>, ClientAction),
) -> bool {
    let services = obj.spec.services@;
    let stop = next_stop(services, i);
    let ns = obj.metadata.namespace->0@;
    if stop == services.len() {
        &&& r.0 matches Some(st) && {
            &&& st.step == ClientStep::AwaitServerConfig
            &&& st.collected@ == with_direct_tokens(m, services, i, stop)
        }
        &&& r.1 matches ClientAction::GetServerConfig { namespace, name } && namespace@ == ns
            && name@ == obj.spec.server_ref@
    } else if let Some(sr) = services[stop].token.secret_ref {
        &&& r.0 matches Some(st) && {
            &&& st.step == ClientStep::AwaitToken(stop as usize)
            &&& st.collected@ == with_direct_tokens(m, services, i, stop)
        }
        &&& r.1 matches ClientAction::GetSecretKey { namespace, name, key } && namespace@ == ns
            && name@ == sr.name@ && key@ == sr.key@
    } else {
        &&& r.0 is None
        &&& r.1 matches ClientAction::Finish(Outcome::Fail(Failure::DefaultError(msg))) && msg@
            == missing_secret_ref_message()
    }
}

/// Starts the reconcile of a client: the server it names is asked for first,
/// in the client's namespace. A client without a namespace fails at once.
pub fn cli_reconcile_begin(obj: &Client) -> (r: (Option<ClientReconcile>, ClientAction))
    ensures
        obj.metadata.namespace is None ==> r.0 is None && (r.1 matches ClientAction::Finish(o)
            && fails_missing(o, ".metadata.namespace"@)),
        obj.metadata.namespace matches Some(ns) ==> {
            &&& r.0 matches Some(st) && {
                &&& st.step == ClientStep::AwaitServer
                &&& st.collected@ == Map::<Seq<char>, ClientServiceConfigView>::empty()
                &&& st.valid_for(*obj)
            }
            &&& r.1 matches ClientAction::GetServer { namespace, name } && namespace@ == ns@
                && name@ == obj.spec.server_ref@
        },
{
    match &obj.metadata.namespace {
        None => (
            None,
            ClientAction::Finish(
                Outcome::Fail(Failure::MissingObjectKey(String::from_str(".metadata.namespace"))),
            ),
        ),
        Some(ns) => {
            let state = ClientReconcile {
                step: ClientStep::AwaitServer,
                namespace: ns.clone(),
                collected: NamedTable::new(),
            };
            (
                Some(state),
                ClientAction::GetServer { namespace: ns.clone(), name: obj.spec.server_ref.clone() },
            )
        },
    }
}

/// The configuration `new` is `old` with the collected services `m` added to
/// its server part, each in place of any service of the same name; with
/// nothing collected it is `old` itself.
pub open spec fn with_collected(old: Config, m: Map<Seq<char>, ClientServiceConfigView>, new: Config) -> bool {
    &&& new.client == old.client
    &&& m == Map::<Seq<char>, ClientServiceConfigView>::empty() ==> new == old
    &&& m != Map::<Seq<char>, ClientServiceConfigView>::empty() ==> (new.server matches Some(s)
        && old.server is Some && server_with_services(
        old.server->0,
        s,
        old.server->0.services@.union_prefer_right(server_services_from(m)),
    ))
}

/// Whether this answer leads the reconcile where the operator stops with a
/// panic: to a service with a direct token but no key, or to services
/// collected for a configuration without a server part.
pub open spec fn cli_step_panics(obj: Client, state: ClientReconcile, event: ClientEvent) -> bool {
    let services = obj.spec.services@;
    match state.step {
        ClientStep::AwaitServerDeployment => event == ClientEvent::Fetched(true) && !direct_keys_present(
            services,
            0,
            next_stop(services, 0),
        ),
        ClientStep::AwaitToken(i) => (event matches ClientEvent::TokenFetched(Ok(_)))
            && !direct_keys_present(services, i + 1, next_stop(services, i + 1)),
        ClientStep::AwaitServerConfig => (event matches ClientEvent::ServerConfigFetched(Ok((_, cfg))))
            && state.collected@ != Map::<Seq<char>, ClientServiceConfigView>::empty() && event->ServerConfigFetched_0->Ok_0.1.server is None,
        _ => false,
    }
}

/// How a client reconcile goes on from `state` on the answer `event`.
pub open spec fn cli_transition(
    obj: Client,
    state: ClientReconcile,
    event: ClientEvent,
    r: (Option<ClientReconcile>, ClientAction),
) -> bool {
    let services = obj.spec.services@;
    let ns = obj.metadata.namespace->0@;
    match state.step {
        ClientStep::AwaitServer => if event == ClientEvent::Fetched(true) {
            &&& r.0 matches Some(st) && st.step == ClientStep::AwaitServerDeployment
                && st.collected@ == state.collected@
            &&& r.1 matches ClientAction::GetDeployment { namespace, name } && namespace@ == ns
                && name@ == obj.spec.server_ref@
        } else {
            records_missing(obj, state, Failure::NoTargetServerConfig, false, r)
        },
        ClientStep::AwaitServerDeployment => if event == ClientEvent::Fetched(true) {
            resumes_at(obj, state.collected@, 0, r)
        } else {
            records_missing(obj, state, Failure::NoTargetServer, true, r)
        },
        ClientStep::AwaitToken(i) => match event {
            ClientEvent::TokenFetched(Ok(Some(value))) => resumes_at(
                obj,
                state.collected@.insert(services[i as int].name@, client_service_of(services[i as int], value@)),
                i + 1,
                r,
            ),
            ClientEvent::TokenFetched(Ok(None)) => resumes_at(obj, state.collected@, i + 1, r),
            _ => r.0 is None && r.1 == ClientAction::Finish(Outcome::Fail(Failure::NoTargetToken)),
        },
        ClientStep::AwaitServerConfig => match event {
            ClientEvent::ServerConfigFetched(Ok((secret_name, cfg))) => match secret_name {
                Some(n) => {
                    &&& r.0 matches Some(st) && st.step == ClientStep::AwaitPatch
                    &&& r.1 matches ClientAction::PatchSecret { namespace, name, config } && namespace@
                        == ns && name@ == n@ && with_collected(cfg, state.collected@, config)
                },
                None => r.0 is None && (r.1 matches ClientAction::Finish(o) && fails_missing(
                    o,
                    ".metadata.name"@,
                )),
            },
            _ => r.0 is None && r.1 == ClientAction::Finish(
                Outcome::Fail(Failure::NoServerConfigFound),
            ),
        },
        ClientStep::AwaitPatch => if event == ClientEvent::Patched(true) {
            applies_client_secret(obj, state, r)
        } else {
            r.0 is None && r.1 == ClientAction::Finish(Outcome::Fail(Failure::SecretCreationFailed))
        },
        ClientStep::AwaitClientSecretPatch => if event == ClientEvent::Patched(true) {
            r.0 is None && r.1 == ClientAction::Finish(Outcome::Requeue(requeue_after_success()))
        } else {
            r.0 is None && r.1 == ClientAction::Finish(Outcome::Fail(Failure::SecretCreationFailed))
        },
        ClientStep::AwaitStatusPatch(f) => r.0 is None && r.1 == ClientAction::Finish(
            Outcome::Fail(f),
        ),
    }
}

/// Where the server, or its deployment, is missing: the client's status
/// records it (`server_config_ok` tells whether the server was found, and the
/// deployment is not), and the reconcile then fails with `f`. A client without
/// a name has no status to write and fails at once.
pub open spec fn records_missing(
    obj: Client,
    state: ClientReconcile,
    f: Failure,
    server_found: bool,
    r: (Option<ClientReconcile>, ClientAction),
) -> bool {
    match obj.metadata.name {
        Some(n) => {
            &&& r.0 == Some(ClientReconcile { step: ClientStep::AwaitStatusPatch(f), ..state })
            &&& r.1 matches ClientAction::PatchStatus { namespace, name, status } && {
                &&& namespace@ == obj.metadata.namespace->0@
                &&& name@ == n@
                &&& status.server_ref@ == obj.spec.server_ref@
                &&& status.server_config_ok == server_found
                &&& !status.server_deploy_ok
            }
        },
        None => r.0 is None && r.1 == ClientAction::Finish(Outcome::Fail(f)),
    }
}

/// Once the server's configuration holds the client's services, the client's
/// own configuration secret is applied where it asks (in its own namespace
/// where it names none). A client without a name or a uid, or that names no
/// secret, fails for the missing field.
pub open spec fn applies_client_secret(
    obj: Client,
    state: ClientReconcile,
    r: (Option<ClientReconcile>, ClientAction),
) -> bool {
    if obj.metadata.name is None {
        r.0 is None && (r.1 matches ClientAction::Finish(o) && fails_missing(o, ".metadata.name"@))
    } else if obj.metadata.uid is None {
        r.0 is None && (r.1 matches ClientAction::Finish(o) && fails_missing(o, ".metadata.uid"@))
    } else if let Some(secret_name) = obj.spec.config_to.name {
        &&& r.0 == Some(ClientReconcile { step: ClientStep::AwaitClientSecretPatch, ..state })
        &&& r.1 matches ClientAction::PatchClientSecret { namespace, name, secret } && {
            &&& namespace@ == (match obj.spec.config_to.namespace {
                Some(cns) => cns@,
                None => obj.metadata.namespace->0@,
            })
            &&& name@ == secret_name@
            &&& is_client_config_secret(secret, obj)
        }
    } else {
        r.0 is None && (r.1 matches ClientAction::Finish(o) && fails_missing(
            o,
            ".spec.configTo.name"@,
        ))
    }
}

/// Handles the services from `i` on, the ones collected so far being
/// `collected` (see `resumes_at`).
fn resume(obj: &Client, namespace: String, collected: NamedTable<ClientServiceConfig>, i: usize) -> (r: (
    Option<ClientReconcile>,
    ClientAction,
))
    requires
        obj.metadata.namespace matches Some(ns) && namespace@ == ns@,
        i <= obj.spec.services@.len(),
        direct_keys_present(obj.spec.services@, i as int, next_stop(obj.spec.services@, i as int)),
        forall|k: Seq<char>| #[trigger] collected@.contains_key(k) ==> collected@[k].name == k,
    ensures
        resumes_at(*obj, collected@, i as int, r),
        r.0 matches Some(st) ==> st.valid_for(*obj),
{
    let ghost services = obj.spec.services@;
    let ghost m = collected@;
    let mut collected = collected;
    proof {
        lemma_next_stop(services, i as int);
    }
    let mut j: usize = i;
    while j < obj.spec.services.len() && obj.spec.services[j].token.secret_type == Some(SecretType::Direct)
        invariant
            services == obj.spec.services@,
            i <= j <= services.len(),
            next_stop(services, j as int) == next_stop(services, i as int),
            direct_keys_present(services, i as int, next_stop(services, i as int)),
            forall|k: int| i <= k < j ==> is_direct(#[trigger] services[k]),
            collected@ == with_direct_tokens(m, services, i as int, j as int),
            forall|k: Seq<char>| #[trigger] collected@.contains_key(k) ==> collected@[k].name == k,
        decreases services.len() - j,
    {
        let s = &obj.spec.services[j];
        proof {
            lemma_next_stop(services, j as int);
            assert(is_direct(services[j as int]));
        }
        let key = match &s.token.key {
            Some(k) => k.clone(),
            None => vstd::pervasive::unreached(),
        };
        let entry = s.to_config(key);
        collected.insert(s.name.clone(), entry);
        j = j + 1;
    }
    proof {
        lemma_next_stop(services, j as int);
        if j < services.len() {
            assert(!is_direct(services[j as int]));
        }
    }
    if j == obj.spec.services.len() {
        let state = ClientReconcile {
            step: ClientStep::AwaitServerConfig,
            namespace: namespace.clone(),
            collected,
        };
        return (
            Some(state),
            ClientAction::GetServerConfig { namespace, name: obj.spec.server_ref.clone() },
        );
    }
    match &obj.spec.services[j].token.secret_ref {
        Some(sr) => {
            let state = ClientReconcile {
                step: ClientStep::AwaitToken(j),
                namespace: namespace.clone(),
                collected,
            };
            (
                Some(state),
                ClientAction::GetSecretKey { namespace, name: sr.name.clone(), key: sr.key.clone() },
            )
        },
        None => (
            None,
            ClientAction::Finish(
                Outcome::Fail(
                    Failure::DefaultError(
                        String::from_str("Secret type is set to Reference, but no data on SecretRef."),
                    ),
                ),
            ),
        ),
    }
}

/// Records in the client's status that the server (when `server_found` is
/// false) or its deployment is missing, before failing with `f`.
fn record_missing(obj: &Client, state: ClientReconcile, f: Failure, server_found: bool) -> (r: (
    Option<ClientReconcile>,
    ClientAction,
))
    requires
        state.valid_for(*obj),
    ensures
        records_missing(*obj, state, f, server_found, r),
{
    match &obj.metadata.name {
        Some(n) => {
            let action = ClientAction::PatchStatus {
                namespace: state.namespace.clone(),
                name: n.clone(),
                status: ClientStatus {
                    server_ref: obj.spec.server_ref.clone(),
                    server_config_ok: server_found,
                    server_deploy_ok: false,
                },
            };
            (Some(ClientReconcile { step: ClientStep::AwaitStatusPatch(f), ..state }), action)
        },
        None => (None, ClientAction::Finish(Outcome::Fail(f))),
    }
}

/// Applies the client's own configuration secret (see `applies_client_secret`).
fn apply_client_secret(obj: &Client, state: ClientReconcile) -> (r: (Option<ClientReconcile>, ClientAction))
    requires
        state.valid_for(*obj),
    ensures
        applies_client_secret(*obj, state, r),
{
    if obj.metadata.name.is_none() {
        return (
            None,
            ClientAction::Finish(
                Outcome::Fail(Failure::MissingObjectKey(String::from_str(".metadata.name"))),
            ),
        );
    }
    if obj.metadata.uid.is_none() {
        return (
            None,
            ClientAction::Finish(
                Outcome::Fail(Failure::MissingObjectKey(String::from_str(".metadata.uid"))),
            ),
        );
    }
    match &obj.spec.config_to.name {
        Some(secret_name) => {
            let namespace = match &obj.spec.config_to.namespace {
                Some(cns) => cns.clone(),
                None => state.namespace.clone(),
            };
            let action = ClientAction::PatchClientSecret {
                namespace,
                name: secret_name.clone(),
                secret: obj.to_config(),
            };
            (Some(ClientReconcile { step: ClientStep::AwaitClientSecretPatch, ..state }), action)
        },
        None => (
            None,
            ClientAction::Finish(
                Outcome::Fail(Failure::MissingObjectKey(String::from_str(".spec.configTo.name"))),
            ),
        ),
    }
}

/// Adds the collected services to the server part of `config`.
fn add_collected(config: &mut Config, collected: &NamedTable<ClientServiceConfig>)
    requires
        collected@ != Map::<Seq<char>, ClientServiceConfigView>::empty() ==> old(config).server is Some,
        forall|k: Seq<char>| #[trigger] collected@.contains_key(k) ==> collected@[k].name == k,
    ensures
        with_collected(*old(config), collected@, *final(config)),
{
    let ghost start = *config;
    let entries = collected.entries();
    proof {
        crate::table::lemma_entries_map_index(entries@);
        if entries@.len() > 0 {
            assert(collected@.contains_key(entries@[0].0@));
        } else {
            assert(collected@ =~= Map::<Seq<char>, ClientServiceConfigView>::empty());
        }
    }
    let mut k: usize = 0;
    while k < entries.len()
        invariant
            k <= entries@.len(),
            collected@ == crate::table::entries_map(entries@),
            crate::table::names_distinct(entries@),
            forall|n: Seq<char>| #[trigger] collected@.contains_key(n) ==> collected@[n].name == n,
            entries@.len() > 0 ==> start.server is Some,
            config.client == start.client,
            k == 0 ==> *config == start,
            k > 0 ==> (config.server matches Some(s) && server_with_services(
                start.server->0,
                s,
                start.server->0.services@.union_prefer_right(
                    server_services_from(crate::table::entries_map(entries@.take(k as int))),
                ),
            )),
        decreases entries@.len() - k,
    {
        let entry = entries[k].1.clone();
        let ghost before = config.server->0.services@;
        proof {
            crate::table::lemma_entries_map_index(entries@);
            assert(collected@[entries@[k as int].0@] == entries@[k as int].1@);
            assert(collected@.contains_key(entries@[k as int].0@));
            assert(entry.name@ == entries@[k as int].0@);
        }
        config.add_service(entry);
        proof {
            let prefix = entries@.take(k as int);
            let next = entries@.take(k + 1);
            assert(next.drop_last() == prefix);
            assert(next.last() == entries@[k as int]);
            let m0 = start.server->0.services@;
            if k == 0 {
                assert(prefix =~= Seq::<(String, ClientServiceConfig)>::empty());
                assert(server_services_from(crate::table::entries_map(prefix)) =~= Map::<
                    Seq<char>,
                    ServerServiceConfigView,
                >::empty());
                assert(m0.union_prefer_right(server_services_from(crate::table::entries_map(prefix)))
                    =~= m0);
            }
            assert(m0.union_prefer_right(server_services_from(crate::table::entries_map(next))) =~= m0.union_prefer_right(
                server_services_from(crate::table::entries_map(prefix)),
            ).insert(entry.name@, server_service_from_client(entry@)));
        }
        k = k + 1;
    }
    proof {
        assert(entries@.take(entries@.len() as int) == entries@);
    }
}

/// The next step of a client reconcile, on the answer `event` to what it
/// asked for last (see `cli_transition`).
pub fn cli_reconcile_step(obj: &Client, state: ClientReconcile, event: ClientEvent) -> (r: (
    Option<ClientReconcile>,
    ClientAction,
))
    requires
        state.valid_for(*obj),
        state.expects(event),
        !cli_step_panics(*obj, state, event),
    ensures
        cli_transition(*obj, state, event, r),
        r.0 matches Some(st) ==> st.valid_for(*obj),
{
    let ghost services = obj.spec.services@;
    match state.step {
        ClientStep::AwaitServer => {
            match event {
                ClientEvent::Fetched(true) => {
                    let action = ClientAction::GetDeployment {
                        namespace: state.namespace.clone(),
                        name: obj.spec.server_ref.clone(),
                    };
                    (Some(ClientReconcile { step: ClientStep::AwaitServerDeployment, ..state }), action)
                },
                _ => record_missing(obj, state, Failure::NoTargetServerConfig, false),
            }
        },
        ClientStep::AwaitServerDeployment => {
            match event {
                ClientEvent::Fetched(true) => resume(obj, state.namespace, state.collected, 0),
                _ => record_missing(obj, state, Failure::NoTargetServer, true),
            }
        },
        ClientStep::AwaitToken(i) => {
            match event {
                ClientEvent::TokenFetched(Ok(Some(value))) if i < obj.spec.services.len() => {
                    let s = &obj.spec.services[i];
                    let mut collected = state.collected;
                    collected.insert(s.name.clone(), s.to_config(value));
                    resume(obj, state.namespace, collected, i + 1)
                },
                ClientEvent::TokenFetched(Ok(None)) if i < obj.spec.services.len() => resume(
                    obj,
                    state.namespace,
                    state.collected,
                    i + 1,
                ),
                _ => (None, ClientAction::Finish(Outcome::Fail(Failure::NoTargetToken))),
            }
        },
        ClientStep::AwaitServerConfig => {
            match event {
                ClientEvent::ServerConfigFetched(Ok((secret_name, cfg))) => {
                    let mut config = cfg;
                    add_collected(&mut config, &state.collected);
                    match secret_name {
                        Some(n) => {
                            let action = ClientAction::PatchSecret {
                                namespace: state.namespace.clone(),
                                name: n,
                                config,
                            };
                            (Some(ClientReconcile { step: ClientStep::AwaitPatch, ..state }), action)
                        },
                        None => (
                            None,
                            ClientAction::Finish(
                                Outcome::Fail(Failure::MissingObjectKey(String::from_str(".metadata.name"))),
                            ),
                        ),
                    }
                },
                _ => (None, ClientAction::Finish(Outcome::Fail(Failure::NoServerConfigFound))),
            }
        },
        ClientStep::AwaitPatch => {
            match event {
                ClientEvent::Patched(true) => apply_client_secret(obj, state),
                _ => (None, ClientAction::Finish(Outcome::Fail(Failure::SecretCreationFailed))),
            }
        },
        ClientStep::AwaitClientSecretPatch => {
            match event {
                ClientEvent::Patched(true) => (None, ClientAction::Finish(Outcome::Requeue(10))),
                _ => (None, ClientAction::Finish(Outcome::Fail(Failure::SecretCreationFailed))),
            }
        },
        ClientStep::AwaitStatusPatch(f) => (None, ClientAction::Finish(Outcome::Fail(f))),
    }
}

/// Whether some service from `i` up to the next stop has a direct token but
/// no key.
fn direct_key_missing(services: &Vec<ServiceConfig>, i: usize) -> (b: bool)
    requires
        i <= services@.len(),
    ensures
        b == !direct_keys_present(services@, i as int, next_stop(services@, i as int)),
{
    proof {
        lemma_next_stop(services@, i as int);
    }
    let mut j: usize = i;
    while j < services.len() && services[j].token.secret_type == Some(SecretType::Direct)
        invariant
            i <= j <= services@.len(),
            next_stop(services@, j as int) == next_stop(services@, i as int),
            i <= next_stop(services@, i as int) <= services@.len(),
            forall|k: int| i <= k < next_stop(services@, i as int) ==> is_direct(#[trigger] services@[k]),
            forall|k: int| i <= k < j && is_direct(services@[k]) ==> (#[trigger] services@[k]).token.key is Some,
        decreases services@.len() - j,
    {
        if services[j].token.key.is_none() {
            proof {
                lemma_next_stop(services@, j as int);
            }
            return true;
        }
        j = j + 1;
    }
    proof {
        lemma_next_stop(services@, j as int);
    }
    false
}

/// Whether this answer leads the reconcile where the operator stops with a
/// panic (see `cli_step_panics`): the step must not be taken then.
pub fn cli_step_would_panic(obj: &Client, state: &ClientReconcile, event: &ClientEvent) -> (b: bool)
    requires
        state.valid_for(*obj),
    ensures
        b == cli_step_panics(*obj, *state, *event),
{
    match (&state.step, event) {
        (ClientStep::AwaitServerDeployment, ClientEvent::Fetched(true)) => direct_key_missing(
            &obj.spec.services,
            0,
        ),
        (ClientStep::AwaitToken(i), ClientEvent::TokenFetched(Ok(_))) => {
            let len = obj.spec.services.len();
            proof {
                assert(*i < len);
            }
            direct_key_missing(&obj.spec.services, *i + 1)
        },
        (ClientStep::AwaitServerConfig, ClientEvent::ServerConfigFetched(Ok((_, cfg)))) => {
            let n = state.collected.len();
            proof {
                if n == 0 {
                    state.collected@.dom().lemma_len0_is_empty();
                    assert(state.collected@ =~= Map::<Seq<char>, ClientServiceConfigView>::empty());
                } else {
                    assert(state.collected@.len() > 0);
                }
            }
            n > 0 && cfg.server.is_none()
        },
        _ => false,
    }
}

/// How far a client reconcile is from its end: the number of answers it
/// can still take at most.
pub open spec fn cli_progress(obj: Client, state: ClientReconcile) -> int {
    let n = obj.spec.services@.len() as int;
    match state.step {
        ClientStep::AwaitServer => n + 6,
        ClientStep::AwaitServerDeployment => n + 5,
        ClientStep::AwaitToken(i) => n + 4 - i,
        ClientStep::AwaitServerConfig => 3,
        ClientStep::AwaitPatch => 2,
        ClientStep::AwaitClientSecretPatch => 1,
        ClientStep::AwaitStatusPatch(_) => 0,
    }
}

/// A client reconcile ends: each answer that does not finish it brings it
/// closer to its end, so it finishes after at most as many answers as the
/// client has services, and seven more.
pub proof fn lemma_client_reconcile_progresses(
    obj: Client,
    state: ClientReconcile,
    event: ClientEvent,
    r: (Option<ClientReconcile>, ClientAction),
)
    requires
        state.valid_for(obj),
        cli_transition(obj, state, event, r),
        r.0 is Some,
    ensures
        0 <= cli_progress(obj, r.0->0) < cli_progress(obj, state),
{
    let services = obj.spec.services@;
    assert(obj.spec.services.len() == services.len());
    match state.step {
        ClientStep::AwaitServerDeployment => {
            lemma_next_stop(services, 0);
        },
        ClientStep::AwaitToken(i) => {
            lemma_next_stop(services, i + 1);
        },
        _ => {},
    }
}

/// The configuration sent for a client holds each collected service under
/// its name, and every other service of the server's configuration as it was.
pub proof fn lemma_collected_services_in_config(
    old: Config,
    m: Map<Seq<char>, ClientServiceConfigView>,
    new: Config,
    name: Seq<char>,
)
    requires
        with_collected(old, m, new),
        m != Map::<Seq<char>, ClientServiceConfigView>::empty(),
    ensures
        m.contains_key(name) ==> new.server->0.services@.contains_key(name)
            && new.server->0.services@[name] == server_service_from_client(m[name]),
        !m.contains_key(name) ==> new.server->0.services@.contains_key(name)
            == old.server->0.services@.contains_key(name) && (old.server->0.services@.contains_key(name)
            ==> new.server->0.services@[name] == old.server->0.services@[name]),
{
}

/// Where the services are read on from `j` (past a removed service at
/// `i`), the services without the one at `i` are read on from `j - 1` alike.
proof fn lemma_next_stop_shift(services: Seq<ServiceConfig>, i: int, j: int)
    requires
        0 <= i < j <= services.len(),
    ensures
        next_stop(services.remove(i), j - 1) == next_stop(services, j) - 1,
    decreases services.len() - j,
{
    let rest = services.remove(i);
    if j < services.len() {
        assert(rest[j - 1] == services[j]);
        if is_direct(services[j]) {
            lemma_next_stop_shift(services, i, j + 1);
        }
    }
}

/// Collecting direct tokens from `a` up to `b`, past a removed service at
/// `i`, collects what the services without it give from `a - 1` up to `b - 1`.
proof fn lemma_with_direct_tokens_shift(
    m: Map<Seq<char>, ClientServiceConfigView>,
    services: Seq<ServiceConfig>,
    i: int,
    a: int,
    b: int,
)
    requires
        0 <= i < a <= b <= services.len(),
    ensures
        with_direct_tokens(m, services.remove(i), a - 1, b - 1) == with_direct_tokens(m, services, a, b),
    decreases b - a,
{
    if a < b {
        lemma_with_direct_tokens_shift(m, services, i, a, b - 1);
        assert(services.remove(i)[b - 2] == services[b - 1]);
    }
}

/// A service whose token the reconcile looked up in a secret that did not
/// hold it is left out as if the client did not have it: reading on past it
/// collects the same services and stops at the same service as reading on, at
/// the same place, for the client without it.
pub proof fn lemma_skipped_service_as_if_absent(
    m: Map<Seq<char>, ClientServiceConfigView>,
    services: Seq<ServiceConfig>,
    i: int,
)
    requires
        0 <= i < services.len(),
    ensures
        ({
            let rest = services.remove(i);
            let stop = next_stop(services, i + 1);
            &&& next_stop(rest, i) == stop - 1
            &&& with_direct_tokens(m, rest, i, next_stop(rest, i)) == with_direct_tokens(m, services, i + 1, stop)
            &&& stop < services.len() ==> rest[stop - 1] == services[stop]
            &&& (stop == services.len()) == (next_stop(rest, i) == rest.len())
        }),
{
    lemma_next_stop(services, i + 1);
    lemma_next_stop_shift(services, i, i + 1);
    let stop = next_stop(services, i + 1);
    lemma_with_direct_tokens_shift(m, services, i, i + 1, stop);
}

/// Which clients a server serves: those in its namespace that name it.
pub open spec fn serves(server: Server, client: Client) -> bool {
    &&& server.metadata.namespace is Some
    &&& opt_view(client.metadata.namespace) == opt_view(server.metadata.namespace)
    &&& server.metadata.name matches Some(n) && client.spec.server_ref@ == n@
}

/// Whether `server` serves `client`: when a server is made or changed, the
/// clients it serves are reconciled again, so that their services go into its
/// configuration.
pub fn client_belongs_to(client: &Client, server: &Server) -> (b: bool)
    ensures
        b == serves(*server, *client),
{
    match (&server.metadata.namespace, &client.metadata.namespace, &server.metadata.name) {
        (Some(sns), Some(cns), Some(n)) => *sns == *cns && client.spec.server_ref == *n,
        _ => false,
    }
}

/// Every service of a client carries a direct token with a key.
pub open spec fn all_direct_with_keys(c: Client) -> bool {
    forall|k: int|
        0 <= k < c.spec.services@.len() ==> is_direct(#[trigger] c.spec.services@[k])
            && c.spec.services@[k].token.key is Some
}

/// The services of the clients from `ci` on that the server serves, each
/// client's direct tokens collected, added in turn to `acc`.
pub open spec fn served_direct_services(
    server: Server,
    clients: Seq<Client>,
    ci: int,
    acc: Map<Seq<char>, ClientServiceConfigView>,
) -> Map<Seq<char>, ClientServiceConfigView>
    decreases clients.len() - ci,
{
    if ci < 0 || ci >= clients.len() {
        acc
    } else if serves(server, clients[ci]) {
        let services = clients[ci].spec.services@;
        served_direct_services(
            server,
            clients,
            ci + 1,
            acc.union_prefer_right(with_direct_tokens(Map::empty(), services, 0, services.len() as int)),
        )
    } else {
        served_direct_services(server, clients, ci + 1, acc)
    }
}

/// A server made while clients of it exist is made with their services:
/// where the services of the clients it serves all carry direct tokens, the
/// reading of the clients asks for no secret and ends with the services of
/// all of them, so the configuration that the reconcile hands out to be
/// written holds every one of them (see `srv_goes_on`).
pub proof fn lemma_server_made_with_direct_client_services(
    server: Server,
    clients: Seq<Client>,
    ci: int,
    acc: Map<Seq<char>, ClientServiceConfigView>,
)
    requires
        0 <= ci <= clients.len(),
        forall|k: int|
            ci <= k < clients.len() && serves(server, #[trigger] clients[k]) ==> all_direct_with_keys(
                clients[k],
            ),
    ensures
        scan_clients(server, clients, ci, 0, Map::empty(), acc) == ClientScan::Done(
            served_direct_services(server, clients, ci, acc),
        ),
    decreases clients.len() - ci,
{
    if ci < clients.len() {
        if serves(server, clients[ci]) {
            let services = clients[ci].spec.services@;
            lemma_next_stop(services, 0);
            if next_stop(services, 0) < services.len() {
                assert(is_direct(services[next_stop(services, 0)]));
            }
            assert(direct_keys_present(services, 0, next_stop(services, 0)));
            lemma_server_made_with_direct_client_services(
                server,
                clients,
                ci + 1,
                acc.union_prefer_right(with_direct_tokens(Map::empty(), services, 0, services.len() as int)),
            );
        } else {
            lemma_server_made_with_direct_client_services(server, clients, ci + 1, acc);
        }
    }
}

/// Collecting the direct tokens of services files every one of them under
/// its name, the last one of a name winning.
pub proof fn lemma_direct_tokens_hold_each(
    m: Map<Seq<char>, ClientServiceConfigView>,
    services: Seq<ServiceConfig>,
    j: int,
    k: int,
)
    requires
        0 <= k < j <= services.len(),
        forall|l: int| k < l < j ==> (#[trigger] services[l]).name@ != services[k].name@,
    ensures
        with_direct_tokens(m, services, 0, j).contains_key(services[k].name@),
        with_direct_tokens(m, services, 0, j)[services[k].name@] == client_service_of(
            services[k],
            services[k].token.key->0@,
        ),
    decreases j,
{
    if k < j - 1 {
        assert(services[j - 1].name@ != services[k].name@);
        lemma_direct_tokens_hold_each(m, services, j - 1, k);
    }
}

/// A service of a client goes through, the answer to its token's lookup
/// being `answer`: a direct token with a key, or a token in a named secret
/// that could be read.
pub open spec fn service_resolves(s: ServiceConfig, answer: Result<Option<String>, ()>) -> bool {
    if is_direct(s) {
        s.token.key is Some
    } else {
        s.token.secret_ref is Some && answer is Ok
    }
}

/// The services of a client before `n` all go through, `answers(ci, k)` being
/// the answer to the lookup of the token of its service `k`.
pub open spec fn services_resolve(
    c: Client,
    ci: int,
    answers: spec_fn(int, int) -> Result<Option<String>, ()>,
    n: int,
) -> bool {
    forall|k: int| 0 <= k < n ==> service_resolves(#[trigger] c.spec.services@[k], answers(ci, k))
}

/// The token that a service gets: its key, where it is direct; else the
/// value found in its secret, if any.
pub open spec fn token_found(s: ServiceConfig, answer: Result<Option<String>, ()>) -> Option<Seq<char>> {
    if is_direct(s) {
        Some(s.token.key->0@)
    } else {
        match answer {
            Ok(Some(v)) => Some(v@),
            _ => None,
        }
    }
}

/// The services of a client before `n` that get a token, each with its
/// token, a later one of a name winning.
pub open spec fn client_contribution(
    services: Seq<ServiceConfig>,
    ci: int,
    answers: spec_fn(int, int) -> Result<Option<String>, ()>,
    n: int,
) -> Map<Seq<char>, ClientServiceConfigView>
    decreases n,
{
    if n <= 0 {
        Map::empty()
    } else {
        let prev = client_contribution(services, ci, answers, n - 1);
        let s = services[n - 1];
        match token_found(s, answers(ci, n - 1)) {
            Some(t) => prev.insert(s.name@, client_service_of(s, t)),
            None => prev,
        }
    }
}

/// The services of the clients before `n` that the server serves and whose
/// services all go through, each client's in place of any earlier ones of
/// the same name.
pub open spec fn served_contributions(
    server: Server,
    clients: Seq<Client>,
    answers: spec_fn(int, int) -> Result<Option<String>, ()>,
    n: int,
) -> Map<Seq<char>, ClientServiceConfigView>
    decreases n,
{
    if n <= 0 {
        Map::empty()
    } else {
        let prev = served_contributions(server, clients, answers, n - 1);
        let c = clients[n - 1];
        if serves(server, c) && services_resolve(c, n - 1, answers, c.spec.services@.len() as int) {
            prev.union_prefer_right(
                client_contribution(c.spec.services@, n - 1, answers, c.spec.services@.len() as int),
            )
        } else {
            prev
        }
    }
}

/// The number of services of the clients from `ci` on.
pub open spec fn services_from(clients: Seq<Client>, ci: int) -> int
    decreases clients.len() - ci,
{
    if ci < 0 || ci >= clients.len() {
        0
    } else {
        clients[ci].spec.services@.len() + services_from(clients, ci + 1)
    }
}

/// Reading the clients on, each token lookup answered by `answers`, for at
/// most `fuel` lookups.
pub open spec fn run_scan(
    server: Server,
    clients: Seq<Client>,
    scan: ClientScan,
    answers: spec_fn(int, int) -> Result<Option<String>, ()>,
    fuel: nat,
) -> ClientScan
    decreases fuel,
{
    match scan {
        ClientScan::Done(a) => ClientScan::Done(a),
        ClientScan::Fetch(ci, i, buf, acc) => if fuel == 0 {
            scan
        } else {
            run_scan(
                server,
                clients,
                scan_after_token(server, clients, ci, i, buf, acc, answers(ci, i)),
                answers,
                (fuel - 1) as nat,
            )
        },
    }
}

proof fn lemma_services_from_nonneg(clients: Seq<Client>, ci: int)
    ensures
        services_from(clients, ci) >= 0,
    decreases clients.len() - ci,
{
    if 0 <= ci < clients.len() {
        lemma_services_from_nonneg(clients, ci + 1);
    }
}

/// Collecting direct tokens with keys from `i` up to `j` goes on the
/// contribution of the services before `i` to that of those before `j`.
proof fn lemma_direct_tokens_contribute(
    services: Seq<ServiceConfig>,
    ci: int,
    answers: spec_fn(int, int) -> Result<Option<String>, ()>,
    i: int,
    j: int,
)
    requires
        0 <= i <= j <= services.len(),
        forall|k: int| i <= k < j ==> is_direct(#[trigger] services[k]) && services[k].token.key is Some,
    ensures
        with_direct_tokens(client_contribution(services, ci, answers, i), services, i, j)
            == client_contribution(services, ci, answers, j),
    decreases j - i,
{
    if i < j {
        lemma_direct_tokens_contribute(services, ci, answers, i, j - 1);
        assert(is_direct(services[j - 1]));
    }
}

/// The reading of the clients, from the service at `i` of the client at
/// `ci`, with the services collected so far what the answers give, ends with
/// the services of every served client whose services all go through.
proof fn lemma_run_scan_from(
    server: Server,
    clients: Seq<Client>,
    answers: spec_fn(int, int) -> Result<Option<String>, ()>,
    ci: int,
    i: int,
    buf: Map<Seq<char>, ClientServiceConfigView>,
    acc: Map<Seq<char>, ClientServiceConfigView>,
    fuel: nat,
)
    requires
        0 <= ci <= clients.len(),
        acc == served_contributions(server, clients, answers, ci),
        ci < clients.len() ==> 0 <= i <= clients[ci].spec.services@.len(),
        ci < clients.len() && serves(server, clients[ci]) ==> services_resolve(clients[ci], ci, answers, i)
            && buf == client_contribution(clients[ci].spec.services@, ci, answers, i),
        fuel >= services_from(clients, ci) - i,
    ensures
        run_scan(server, clients, scan_clients(server, clients, ci, i, buf, acc), answers, fuel)
            == ClientScan::Done(served_contributions(server, clients, answers, clients.len() as int)),
    decreases clients.len() - ci, (if ci < clients.len() { clients[ci].spec.services@.len() - i } else { 0 }),
{
    if ci >= clients.len() {
        return;
    }
    let c = clients[ci];
    let services = c.spec.services@;
    let n = services.len() as int;
    lemma_services_from_nonneg(clients, ci + 1);
    let next_acc = served_contributions(server, clients, answers, ci + 1);
    if !serves(server, c) {
        assert(next_acc == acc);
        lemma_run_scan_from(server, clients, answers, ci + 1, 0, Map::empty(), acc, fuel);
        return;
    }
    let stop = next_stop(services, i);
    lemma_next_stop(services, i);
    if !direct_keys_present(services, i, stop) {
        let k = choose|k: int| i <= k < stop && is_direct(services[k]) && !(services[k].token.key is Some);
        assert(!service_resolves(services[k], answers(ci, k)));
        assert(!services_resolve(c, ci, answers, n));
        assert(next_acc == acc);
        lemma_run_scan_from(server, clients, answers, ci + 1, 0, Map::empty(), acc, fuel);
        return;
    }
    lemma_direct_tokens_contribute(services, ci, answers, i, stop);
    let buf2 = with_direct_tokens(buf, services, i, stop);
    assert(buf2 == client_contribution(services, ci, answers, stop));
    assert(services_resolve(c, ci, answers, stop)) by {
        assert forall|k: int| 0 <= k < stop implies service_resolves(#[trigger] services[k], answers(ci, k)) by {
            if k >= i {
                assert(is_direct(services[k]));
            }
        }
    }
    if stop >= n {
        assert(next_acc == acc.union_prefer_right(buf2));
        lemma_run_scan_from(server, clients, answers, ci + 1, 0, Map::empty(), next_acc, fuel);
        return;
    }
    let s = services[stop];
    assert(!is_direct(s));
    if s.token.secret_ref is None {
        assert(!service_resolves(s, answers(ci, stop)));
        assert(!services_resolve(c, ci, answers, n));
        assert(next_acc == acc);
        lemma_run_scan_from(server, clients, answers, ci + 1, 0, Map::empty(), acc, fuel);
        return;
    }
    assert(scan_clients(server, clients, ci, i, buf, acc) == ClientScan::Fetch(ci, stop, buf2, acc));
    assert(fuel >= 1);
    let answer = answers(ci, stop);
    let f1 = (fuel - 1) as nat;
    match answer {
        Ok(Some(v)) => {
            assert(services_resolve(c, ci, answers, stop + 1));
            assert(client_contribution(services, ci, answers, stop + 1) == buf2.insert(
                s.name@,
                client_service_of(s, v@),
            ));
            lemma_run_scan_from(
                server,
                clients,
                answers,
                ci,
                stop + 1,
                buf2.insert(s.name@, client_service_of(s, v@)),
                acc,
                f1,
            );
        },
        Ok(None) => {
            assert(services_resolve(c, ci, answers, stop + 1));
            assert(client_contribution(services, ci, answers, stop + 1) == buf2);
            lemma_run_scan_from(server, clients, answers, ci, stop + 1, buf2, acc, f1);
        },
        Err(_) => {
            assert(!service_resolves(s, answers(ci, stop)));
            assert(!services_resolve(c, ci, answers, n));
            assert(next_acc == acc);
            lemma_run_scan_from(server, clients, answers, ci + 1, 0, Map::empty(), acc, f1);
        },
    }
}

/// What a server reconcile collects from its clients: reading the clients,
/// each token lookup answered by `answers`, ends (within as many lookups as
/// the clients have services) with exactly the services of the clients that
/// the server serves and whose services all go through (direct tokens with
/// keys, tokens in named secrets that could be read); each such client gives
/// every one of its services that gets a token (a secret without the key
/// leaves out that service alone), a later client's in place of an earlier
/// one's of the same name; a client that does not go through gives none, and
/// takes nothing from the others. The configuration that the reconcile then
/// hands out holds these services (see `srv_goes_on`).
pub proof fn lemma_server_collects_resolving_clients(
    server: Server,
    clients: Seq<Client>,
    answers: spec_fn(int, int) -> Result<Option<String>, ()>,
    fuel: nat,
)
    requires
        fuel >= services_from(clients, 0),
    ensures
        run_scan(server, clients, scan_clients(server, clients, 0, 0, Map::empty(), Map::empty()), answers, fuel)
            == ClientScan::Done(served_contributions(server, clients, answers, clients.len() as int)),
{
    lemma_run_scan_from(server, clients, answers, 0, 0, Map::empty(), Map::empty(), fuel);
}

} // verus!
