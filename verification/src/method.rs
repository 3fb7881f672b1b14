//! What the custom resources become: the rathole service configs, the
//! secrets that hold configurations, and the deployment of a server.
use vstd::prelude::*;

use crate::config::AppConfig;
use crate::crd::{self, api_version_spec, Client, Server, ServiceConfig};
use crate::k8s::{
    controller_owner_ref, controller_owner_ref_spec, Container, ContainerPort, Deployment,
    DeploymentSpec, DeploymentStrategy, LabelSelector, ObjectMeta, OwnerReference, PodSpec,
    PodTemplateSpec, Secret, SecretVolumeSource, Volume, VolumeMount,
};
use crate::rathole::{
    server_service_of, server_with_services, with_services, ClientServiceConfig, ClientServiceConfigView, Config, ServerServiceConfig,
    ServerServiceConfigView, ServiceType,
};
use crate::table::NamedTable;
use crate::text::{format_host_port, host_port, opt_view};

verus! {

/// The rathole protocol of a service of a client resource: UDP where it asks
/// for UDP, TCP otherwise.
pub open spec fn service_type_of(t: Option<crd::ServiceType>) -> ServiceType {
    match t {
        Some(crd::ServiceType::Udp) => ServiceType::Udp,
        _ => ServiceType::Tcp,
    }
}

/// The rathole client service that a service of a client resource becomes,
/// guarded by `token`.
pub open spec fn client_service_of(s: ServiceConfig, token: Seq<char>) -> ClientServiceConfigView {
    ClientServiceConfigView {
        service_type: service_type_of(s.service_type),
        name: s.name@,
        local_addr: host_port(s.local_addr.host@, s.local_addr.port as int),
        token: Some(token),
        nodelay: Some(s.nodelay),
        retry_interval: Some(s.retry_interval as u64),
    }
}

impl ServiceConfig {
    /// The rathole client service config of this service, guarded by `token`.
    pub fn to_config(&self, token: String) -> (c: ClientServiceConfig)
        ensures
            c@ == client_service_of(*self, token@),
    {
        ClientServiceConfig {
            service_type: match self.service_type {
                Some(crd::ServiceType::Tcp) | None => ServiceType::Tcp,
                Some(crd::ServiceType::Udp) => ServiceType::Udp,
            },
            name: self.name.clone(),
            local_addr: format_host_port(&self.local_addr.host, self.local_addr.port),
            nodelay: Some(self.nodelay),
            retry_interval: Some(self.retry_interval as u64),
            token: Some(token),
        }
    }
}

/// The server service that a client service config becomes on the server:
/// TCP, bound where the client's service is, with its token and nodelay.
pub open spec fn server_service_from_client(c: ClientServiceConfigView) -> ServerServiceConfigView {
    ServerServiceConfigView {
        service_type: ServiceType::Tcp,
        name: c.name,
        bind_addr: c.local_addr,
        token: c.token,
        nodelay: c.nodelay,
    }
}

impl Config {
    /// Adds a client's service to the server part, in place of any service of
    /// the same name.
    pub fn add_service(&mut self, dat: ClientServiceConfig)
        requires
            old(self).server is Some,
        ensures
            final(self).client == old(self).client,
            final(self).server matches Some(s) && server_with_services(
                old(self).server->0,
                s,
                old(self).server->0.services@.insert(dat.name@, server_service_from_client(dat@)),
            ),
    {
        let key = dat.name.clone();
        let entry = ServerServiceConfig {
            service_type: ServiceType::Tcp,
            name: dat.name,
            bind_addr: dat.local_addr,
            token: dat.token,
            nodelay: dat.nodelay,
        };
        match &mut self.server {
            Some(s) => {
                s.services.insert(key, entry);
            },
            None => {},
        }
    }
}

/// The API group and version of the custom resources.
pub fn api_version() -> (s: &'static str)
    ensures
        s@ == api_version_spec(),
{
    "rathole.mrchypark.github.io/v1alpha1"
}

/// `r` is the single controller owner reference to the object of the given
/// kind with metadata `meta`.
pub open spec fn owned_by(r: Option<Vec<OwnerReference>>, kind: Seq<char>, meta: ObjectMeta) -> bool {
    r matches Some(v) && v@.len() == 1 && controller_owner_ref_spec(
        api_version_spec(),
        kind,
        meta,
        Some(v@[0]),
    )
}

/// The text `test` as bytes.
pub open spec fn test_bytes() -> Seq<u8> {
    seq![116u8, 101u8, 115u8, 116u8]
}

/// The secret that a client's configuration goes to: named and placed as the
/// client asks, owned by the client. Its data is a placeholder, the text
/// `test` under `config`, not a rathole client configuration.
pub open spec fn is_client_config_secret(s: Secret, client: Client) -> bool {
    &&& opt_view(s.metadata.name) == opt_view(client.spec.config_to.name)
    &&& opt_view(s.metadata.namespace) == opt_view(client.spec.config_to.namespace)
    &&& s.metadata.uid is None
    &&& s.metadata.labels is None
    &&& owned_by(s.metadata.owner_references, "Client"@, client.metadata)
    &&& s.data matches Some(d) && d@ == map!["config"@ => test_bytes()]
}

impl Client {
    /// The secret that holds this client's configuration.
    pub fn to_config(&self) -> (s: Secret)
        requires
            self.metadata.name is Some,
            self.metadata.uid is Some,
        ensures
            is_client_config_secret(s, *self),
    {
        let owner = controller_owner_ref(api_version(), "Client", &self.metadata);
        let owner = match owner {
            Some(o) => o,
            None => vstd::pervasive::unreached(),
        };
        let mut owners = Vec::new();
        owners.push(owner);
        let mut data = NamedTable::new();
        proof {
            reveal_strlit("config");
        }
        data.insert(String::from_str("config"), vec![116u8, 101u8, 115u8, 116u8]);
        let mut metadata = ObjectMeta::empty();
        metadata.name = self.spec.config_to.name.clone();
        metadata.namespace = self.spec.config_to.namespace.clone();
        metadata.owner_references = Some(owners);
        Secret { metadata, data: Some(data) }
    }
}

/// The secret that a server's configuration goes to: named after the server,
/// owned by it, holding `config` under the configured file name.
pub open spec fn is_server_config_secret(
    s: Secret,
    server: Server,
    env: AppConfig,
    config: Seq<u8>,
) -> bool {
    &&& opt_view(s.metadata.name) == opt_view(server.metadata.name)
    &&& s.metadata.namespace is None
    &&& s.metadata.uid is None
    &&& s.metadata.labels is None
    &&& owned_by(s.metadata.owner_references, "Server"@, server.metadata)
    &&& s.data matches Some(d) && d@ == map![env.rathole_config_name@ => config]
}

/// The labels of a server's pods, all with the server's name.
pub open spec fn server_labels(name: Seq<char>) -> Map<Seq<char>, Seq<char>> {
    map!["name"@ => name, "app.kubernetes.io/instance"@ => name, "app.kubernetes.io/name"@ => name]
}

/// The deployment of a server: one pod labelled with the server's name that
/// runs the rathole server image on the configuration file, which it reads
/// from the secret volume `<name>-server-config`, and listens on the server's
/// bind port. Note that the configuration secret that the operator writes is
/// named `<name>` (see `is_server_config_secret`), not `<name>-server-config`:
/// the volume names a secret that the operator does not make, so the pod does
/// not read the configuration written for it.
pub open spec fn is_server_deployment(d: Deployment, server: Server, env: AppConfig) -> bool {
    let name = server.metadata.name->0@;
    &&& opt_view(d.metadata.name) == Some(name)
    &&& d.metadata.namespace is None
    &&& d.metadata.uid is None
    &&& d.metadata.labels is None
    &&& owned_by(d.metadata.owner_references, "Server"@, server.metadata)
    &&& d.spec matches Some(ds) && {
        &&& ds.replicas == Some(1i32)
        &&& ds.strategy matches Some(st) && st.strategy_type is None
        &&& ds.selector.match_labels matches Some(l) && l@ == server_labels(name)
        &&& ds.template.metadata matches Some(m) && {
            &&& m.labels matches Some(l) && l@ == server_labels(name)
            &&& m.name is None
            &&& m.namespace is None
            &&& m.uid is None
            &&& m.owner_references is None
        }
        &&& ds.template.spec matches Some(ps) && {
            &&& ps.volumes matches Some(vs) && vs@.len() == 1 && {
                let v = vs@[0];
                &&& v.name@ == "rathole-config"@
                &&& v.secret matches Some(src) && src.optional == Some(false) && opt_view(
                    src.secret_name,
                ) == Some(name + "-server-config"@)
            }
            &&& ps.containers@.len() == 1
            &&& is_server_container(ps.containers@[0], server, env)
        }
    }
}

/// The container of a server's pod.
pub open spec fn is_server_container(c: Container, server: Server, env: AppConfig) -> bool {
    &&& c.name@ == "rathole-server"@
    &&& opt_view(c.image) == Some(env.rathole_image@)
    &&& c.args matches Some(args) && args@.len() == 2 && args@[0]@ == "--server"@ && args@[1]@
        == env.rathole_config_path@ + "/"@ + env.rathole_config_name@
    &&& c.volume_mounts matches Some(ms) && ms@.len() == 1 && {
        let m = ms@[0];
        &&& m.read_only == Some(true)
        &&& m.mount_path@ == env.rathole_config_path@
        &&& m.name@ == "rathole-config"@
    }
    &&& c.ports matches Some(ps) && ps@.len() == 1 && ps@[0].container_port
        == server.spec.bind_addr.port
}

/// The three labels of a server's pods.
fn make_server_labels(name: &String) -> (l: NamedTable<String>)
    ensures
        l@ == server_labels(name@),
{
    let mut l = NamedTable::new();
    proof {
        reveal_strlit("name");
        reveal_strlit("app.kubernetes.io/instance");
        reveal_strlit("app.kubernetes.io/name");
    }
    l.insert(String::from_str("name"), name.clone());
    l.insert(String::from_str("app.kubernetes.io/instance"), name.clone());
    l.insert(String::from_str("app.kubernetes.io/name"), name.clone());
    proof {
        assert(l@ == server_labels(name@));
    }
    l
}

impl Server {
    /// The secret that holds this server's configuration file, whose text
    /// is `config`.
    pub fn to_config_secret(&self, env: &AppConfig, config: Vec<u8>) -> (s: Secret)
        requires
            self.metadata.name is Some,
            self.metadata.uid is Some,
        ensures
            is_server_config_secret(s, *self, *env, config@),
    {
        let owner = match controller_owner_ref(api_version(), "Server", &self.metadata) {
            Some(o) => o,
            None => vstd::pervasive::unreached(),
        };
        let mut owners = Vec::new();
        owners.push(owner);
        let mut data = NamedTable::new();
        data.insert(env.rathole_config_name.clone(), config);
        let mut metadata = ObjectMeta::empty();
        metadata.name = self.metadata.name.clone();
        metadata.owner_references = Some(owners);
        Secret { metadata, data: Some(data) }
    }

    /// The deployment that runs this server.
    pub fn to_deployment(&self, env: &AppConfig) -> (d: Deployment)
        requires
            self.metadata.name is Some,
            self.metadata.uid is Some,
        ensures
            is_server_deployment(d, *self, *env),
    {
        let name = match &self.metadata.name {
            Some(n) => n.clone(),
            None => vstd::pervasive::unreached(),
        };
        let owner = match controller_owner_ref(api_version(), "Server", &self.metadata) {
            Some(o) => o,
            None => vstd::pervasive::unreached(),
        };
        let mut owners = Vec::new();
        owners.push(owner);
        let mut metadata = ObjectMeta::empty();
        metadata.name = Some(name.clone());
        metadata.owner_references = Some(owners);

        let mut pod_metadata = ObjectMeta::empty();
        pod_metadata.labels = Some(make_server_labels(&name));

        let mut volumes = Vec::new();
        volumes.push(
            Volume {
                name: String::from_str("rathole-config"),
                secret: Some(
                    SecretVolumeSource {
                        optional: Some(false),
                        secret_name: Some(name.clone().concat("-server-config")),
                    },
                ),
            },
        );

        let mut args = Vec::new();
        args.push(String::from_str("--server"));
        args.push(env.rathole_config_path.clone().concat("/").concat(env.rathole_config_name.as_str()));

        let mut mounts = Vec::new();
        mounts.push(
            VolumeMount {
                read_only: Some(true),
                mount_path: env.rathole_config_path.clone(),
                name: String::from_str("rathole-config"),
            },
        );

        let mut ports = Vec::new();
        ports.push(ContainerPort { container_port: self.spec.bind_addr.port });

        let mut containers = Vec::new();
        containers.push(
            Container {
                name: String::from_str("rathole-server"),
                image: Some(env.rathole_image.clone()),
                args: Some(args),
                volume_mounts: Some(mounts),
                ports: Some(ports),
            },
        );

        Deployment {
            metadata,
            spec: Some(
                DeploymentSpec {
                    replicas: Some(1),
                    selector: LabelSelector { match_labels: Some(make_server_labels(&name)) },
                    template: PodTemplateSpec {
                        metadata: Some(pod_metadata),
                        spec: Some(PodSpec { volumes: Some(volumes), containers }),
                    },
                    strategy: Some(DeploymentStrategy { strategy_type: None }),
                },
            ),
        }
    }
}

/// The pods of a server's deployment carry exactly the labels that its
/// selector asks for, so the deployment finds the pods it makes.
pub proof fn lemma_deployment_selects_its_pods(d: Deployment, server: Server, env: AppConfig)
    requires
        is_server_deployment(d, server, env),
    ensures
        d.spec->0.selector.match_labels->0@ == d.spec->0.template.metadata->0.labels->0@,
{
}

/// The server container is started on the configuration file that lies in
/// the directory where the configuration volume is mounted.
pub proof fn lemma_config_file_in_mounted_volume(d: Deployment, server: Server, env: AppConfig)
    requires
        is_server_deployment(d, server, env),
    ensures
        ({
            let c = d.spec->0.template.spec->0.containers@[0];
            let mount = c.volume_mounts->0@[0];
            &&& mount.name@ == d.spec->0.template.spec->0.volumes->0@[0].name@
            &&& c.args->0@[1]@ == mount.mount_path@ + "/"@ + env.rathole_config_name@
        }),
{
}

/// Both objects made for a server, its configuration secret and its
/// deployment, are owned by the server through the same controller
/// reference, so the cluster removes them with it.
pub proof fn lemma_server_objects_owned_by_server(
    secret: Secret,
    deployment: Deployment,
    server: Server,
    env: AppConfig,
    config: Seq<u8>,
)
    requires
        is_server_config_secret(secret, server, env, config),
        is_server_deployment(deployment, server, env),
    ensures
        ({
            let a = secret.metadata.owner_references->0@[0];
            let b = deployment.metadata.owner_references->0@[0];
            &&& a.uid@ == server.metadata.uid->0@ && b.uid@ == server.metadata.uid->0@
            &&& a.name@ == server.metadata.name->0@ && b.name@ == server.metadata.name->0@
            &&& a.kind@ == "Server"@ && b.kind@ == "Server"@
            &&& a.api_version@ == b.api_version@
            &&& a.controller == Some(true) && b.controller == Some(true)
        }),
{
}

/// The services after adding each of `ds` in turn through `add_service`,
/// each as the client service config `to_config` makes of it with its key.
pub open spec fn with_client_services(
    m: Map<Seq<char>, ServerServiceConfigView>,
    ds: Seq<ServiceConfig>,
) -> Map<Seq<char>, ServerServiceConfigView>
    decreases ds.len(),
{
    if ds.len() == 0 {
        m
    } else {
        with_client_services(m, ds.drop_last()).insert(
            ds.last().name@,
            server_service_from_client(client_service_of(ds.last(), ds.last().token.key->0@)),
        )
    }
}

/// Adding services that all have keys with `add_services` is adding, in
/// turn, the client service config that `to_config` makes of each with its
/// key, with `add_service`.
pub proof fn lemma_add_services_is_add_service_of_each(
    m: Map<Seq<char>, ServerServiceConfigView>,
    ds: Seq<ServiceConfig>,
)
    requires
        forall|i: int| 0 <= i < ds.len() ==> (#[trigger] ds[i]).token.key is Some,
    ensures
        with_services(m, ds) == with_client_services(m, ds),
    decreases ds.len(),
{
    if ds.len() > 0 {
        let prefix = ds.drop_last();
        assert forall|i: int| 0 <= i < prefix.len() implies (#[trigger] prefix[i]).token.key is Some by {
            assert(prefix[i] == ds[i]);
        }
        lemma_add_services_is_add_service_of_each(m, prefix);
        let d = ds.last();
        assert(ds[ds.len() - 1].token.key is Some);
        assert(server_service_of(d) == server_service_from_client(client_service_of(d, d.token.key->0@)));
    }
}

} // verus!
