use std::sync::Arc;

use rathole_operator::config::AppConfig;
use rathole_operator::controller::{
    cli_reconcile_begin, cli_reconcile_step, cli_step_would_panic, client_belongs_to,
    error_policy_requeue_secs, srv_reconcile_begin, srv_reconcile_step, ClientAction, ClientEvent,
    ClientReconcile, ClientStep, Failure, Outcome, ServerAction, ServerEvent, ServerReconcile,
    ServerStep,
};
use rathole_operator::crd::{
    self, Client, ClientConfigType, ClientSpec, ConfigTo, SecretRef, SecretType, Server, ServerSpec,
    ServiceConfig, Token, Transport, Uri,
};
use rathole_operator::k8s::ObjectMeta;
use rathole_operator::rathole::Config;

fn meta(namespace: Option<&str>) -> ObjectMeta {
    ObjectMeta {
        name: Some("obj".to_string()),
        namespace: namespace.map(|s| s.to_string()),
        uid: Some("uid".to_string()),
        labels: None,
        owner_references: None,
    }
}

fn server(namespace: Option<&str>) -> Server {
    Server {
        metadata: meta(namespace),
        spec: ServerSpec {
            bind_addr: Uri { host: "0.0.0.0".to_string(), port: 2333 },
            default_token: None,
            expose_addr: Uri { host: "example.com".to_string(), port: 443 },
            heartbeat_interval: 30,
            transport: Transport {
                transport_type: crd::TransportType::Noise,
                tcp: None,
                tls: None,
                websocket: None,
                noise: None,
            },
        },
        status: None,
    }
}

fn direct(name: &str, key: Option<&str>) -> ServiceConfig {
    ServiceConfig {
        name: name.to_string(),
        local_addr: Uri { host: "127.0.0.1".to_string(), port: 22 },
        service_type: None,
        nodelay: true,
        retry_interval: 1,
        token: Token {
            secret_type: Some(SecretType::Direct),
            key: key.map(|k| k.to_string()),
            secret_ref: None,
        },
    }
}

fn by_reference(name: &str, secret: Option<(&str, &str)>, kind: Option<SecretType>) -> ServiceConfig {
    ServiceConfig {
        name: name.to_string(),
        local_addr: Uri { host: "10.0.0.1".to_string(), port: 80 },
        service_type: Some(crd::ServiceType::Tcp),
        nodelay: false,
        retry_interval: 2,
        token: Token {
            secret_type: kind,
            key: None,
            secret_ref: secret.map(|(n, k)| SecretRef { name: n.to_string(), key: k.to_string() }),
        },
    }
}

fn client(namespace: Option<&str>, services: Vec<ServiceConfig>) -> Client {
    Client {
        metadata: meta(namespace),
        spec: ClientSpec {
            server_ref: "edge".to_string(),
            config_to: ConfigTo {
                config_type: ClientConfigType::Secret,
                name: Some("obj-config".to_string()),
                namespace: None,
            },
            heartbeat_timeout: 30,
            retry_interval: 1,
            services,
        },
        status: None,
    }
}

fn env() -> AppConfig {
    AppConfig::from_env_values(None, None, None, None, None)
}

fn fail(f: Failure) -> ClientAction {
    ClientAction::Finish(Outcome::Fail(f))
}

/// Walks a client through the server and deployment checks.
fn past_server_checks(obj: &Client) -> (Option<ClientReconcile>, ClientAction) {
    let (st, action) = cli_reconcile_begin(obj);
    assert_eq!(action, ClientAction::GetServer { namespace: "ns".to_string(), name: "edge".to_string() });
    let (st, action) = cli_reconcile_step(obj, st.unwrap(), ClientEvent::Fetched(true));
    assert_eq!(action, ClientAction::GetDeployment { namespace: "ns".to_string(), name: "edge".to_string() });
    cli_reconcile_step(obj, st.unwrap(), ClientEvent::Fetched(true))
}

#[test]
fn error_policy_requeues_after_five_seconds() {
    assert_eq!(error_policy_requeue_secs(), 5);
}

#[test]
fn server_without_namespace_fails() {
    let (st, action) = srv_reconcile_begin(&server(None));
    assert!(st.is_none());
    assert_eq!(
        action,
        ServerAction::Finish(Outcome::Fail(Failure::MissingObjectKey(".metadata.namespace".to_string())))
    );
}

/// A client in namespace `ns` of the server `server_ref`.
fn client_of(server_ref: &str, services: Vec<ServiceConfig>) -> Client {
    let mut c = client(Some("ns"), services);
    c.spec.server_ref = server_ref.to_string();
    c
}

/// Walks a server reconcile up to the deployment patch: the clients listed
/// are `clients`, each token secret holds `tok-<key>` except those whose key
/// is in `unreadable` (not readable) or `missing` (no such key); returns the
/// configuration it handed out.
fn server_until_deployment(
    obj: &Server,
    clients: Vec<Client>,
    unreadable: &[&str],
    missing: &[&str],
) -> (ServerReconcile, Config) {
    let (st, action) = srv_reconcile_begin(obj);
    assert_eq!(action, ServerAction::ListClients { namespace: "ns".to_string() });
    let (mut st, mut action) = srv_reconcile_step(obj, &env(), st.unwrap(), ServerEvent::ClientsListed(Ok(clients)));
    let config = loop {
        match action {
            ServerAction::GetSecretKey { namespace, key, .. } => {
                assert_eq!(namespace, "ns");
                let answer = if unreadable.contains(&key.as_str()) {
                    Err(())
                } else if missing.contains(&key.as_str()) {
                    Ok(None)
                } else {
                    Ok(Some(format!("tok-{}", key)))
                };
                let (next, next_action) = srv_reconcile_step(obj, &env(), st.unwrap(), ServerEvent::TokenFetched(answer));
                st = next;
                action = next_action;
            },
            ServerAction::Serialize { config } => break config,
            other => panic!("unexpected {:?}", other),
        }
    };
    let (st, action) = srv_reconcile_step(obj, &env(), st.unwrap(), ServerEvent::Serialized(b"cfg".to_vec()));
    match action {
        ServerAction::PatchDeployment { namespace, name, deployment } => {
            assert_eq!(namespace, "ns");
            assert_eq!(name, "obj");
            assert_eq!(deployment, obj.to_deployment(&env()));
        },
        other => panic!("unexpected {:?}", other),
    }
    (st.unwrap(), config)
}

#[test]
fn server_reconcile_patches_deployment_then_secret() {
    let obj = server(Some("ns"));
    let (st, config) = server_until_deployment(&obj, vec![], &[], &[]);
    assert_eq!(config, Config::runset(Arc::new(obj.clone())));
    assert!(matches!(st.step, ServerStep::AwaitDeploymentPatch { .. }));
    let (st, action) = srv_reconcile_step(&obj, &env(), st, ServerEvent::Patched(true));
    match action {
        ServerAction::PatchSecret { namespace, name, secret } => {
            assert_eq!(namespace, "ns");
            assert_eq!(name, "obj");
            assert_eq!(secret, obj.to_config_secret(&env(), b"cfg".to_vec()));
        },
        other => panic!("unexpected {:?}", other),
    }
    let (st, action) = srv_reconcile_step(&obj, &env(), st.unwrap(), ServerEvent::Patched(true));
    assert!(st.is_none());
    assert_eq!(action, ServerAction::Finish(Outcome::Requeue(10)));
}

#[test]
fn server_created_with_the_services_of_its_clients() {
    let obj = server(Some("ns"));
    let clients = vec![
        client_of("obj", vec![direct("ssh", Some("k1")), by_reference("web", Some(("tokens", "web")), None)]),
        client_of("other", vec![direct("elsewhere", Some("k"))]),
        client_of("obj", vec![direct("db", Some("k3")), by_reference("nosecret", None, None)]),
        client_of("obj", vec![direct("nokey", None)]),
        client_of("obj", vec![by_reference("gone", Some(("tokens", "gone")), Some(SecretType::Reference)), direct("mq", Some("k4"))]),
    ];
    let (_, config) = server_until_deployment(&obj, clients, &[], &["gone"]);
    let s = config.server.unwrap();
    assert_eq!(s.bind_addr, "0.0.0.0:2333");
    let names: Vec<&str> = s.services.entries().iter().map(|(k, _)| k.as_str()).collect();
    assert_eq!(s.services.len(), 4, "{:?}", names);
    let ssh = s.services.get(&"ssh".to_string()).unwrap();
    assert_eq!(ssh.token, Some("k1".to_string()));
    assert_eq!(ssh.bind_addr, "127.0.0.1:22");
    assert_eq!(s.services.get(&"web".to_string()).unwrap().token, Some("tok-web".to_string()));
    assert_eq!(s.services.get(&"mq".to_string()).unwrap().token, Some("k4".to_string()));
    assert!(s.services.get(&"dummy".to_string()).is_some());
    assert!(s.services.get(&"db".to_string()).is_none());
    assert!(s.services.get(&"elsewhere".to_string()).is_none());
    assert!(s.services.get(&"gone".to_string()).is_none());
}

#[test]
fn server_leaves_out_a_client_whose_token_secret_is_unreadable() {
    let obj = server(Some("ns"));
    let clients = vec![
        client_of("obj", vec![direct("ssh", Some("k1")), by_reference("web", Some(("tokens", "web")), None)]),
        client_of("obj", vec![direct("db", Some("k3"))]),
    ];
    let (_, config) = server_until_deployment(&obj, clients, &["web"], &[]);
    let s = config.server.unwrap();
    assert_eq!(s.services.len(), 2);
    assert!(s.services.get(&"ssh".to_string()).is_none());
    assert_eq!(s.services.get(&"db".to_string()).unwrap().token, Some("k3".to_string()));
}

#[test]
fn server_client_service_named_dummy_replaces_placeholder() {
    let obj = server(Some("ns"));
    let (_, config) = server_until_deployment(&obj, vec![client_of("obj", vec![direct("dummy", Some("t"))])], &[], &[]);
    let s = config.server.unwrap();
    assert_eq!(s.services.len(), 1);
    assert_eq!(s.services.get(&"dummy".to_string()).unwrap().token, Some("t".to_string()));
}

#[test]
fn server_clients_not_listed_fails() {
    let obj = server(Some("ns"));
    let (st, _) = srv_reconcile_begin(&obj);
    let (st, action) = srv_reconcile_step(&obj, &env(), st.unwrap(), ServerEvent::ClientsListed(Err(())));
    assert!(st.is_none());
    assert_eq!(action, ServerAction::Finish(Outcome::Fail(Failure::ClientListFailed)));
}

#[test]
fn server_reconcile_deployment_patch_failure() {
    let obj = server(Some("ns"));
    let (st, _) = server_until_deployment(&obj, vec![], &[], &[]);
    let (st, action) = srv_reconcile_step(&obj, &env(), st, ServerEvent::Patched(false));
    assert!(st.is_none());
    assert_eq!(action, ServerAction::Finish(Outcome::Fail(Failure::DeplymentCreationFailed)));
}

#[test]
fn server_reconcile_secret_patch_failure() {
    let obj = server(Some("ns"));
    let (st, _) = server_until_deployment(&obj, vec![], &[], &[]);
    let (st, _) = srv_reconcile_step(&obj, &env(), st, ServerEvent::Patched(true));
    let (st, action) = srv_reconcile_step(&obj, &env(), st.unwrap(), ServerEvent::Patched(false));
    assert!(st.is_none());
    assert_eq!(action, ServerAction::Finish(Outcome::Fail(Failure::SecretCreationFailed)));
}

#[test]
fn server_serves_clients_in_its_namespace_that_name_it() {
    let mut srv = server(Some("ns"));
    srv.metadata.name = Some("edge".to_string());
    assert!(client_belongs_to(&client(Some("ns"), vec![]), &srv));
    assert!(!client_belongs_to(&client(Some("other"), vec![]), &srv));
    let mut elsewhere = client(Some("ns"), vec![]);
    elsewhere.spec.server_ref = "core".to_string();
    assert!(!client_belongs_to(&elsewhere, &srv));
}

#[test]
fn client_without_namespace_fails() {
    let (st, action) = cli_reconcile_begin(&client(None, vec![]));
    assert!(st.is_none());
    assert_eq!(action, fail(Failure::MissingObjectKey(".metadata.namespace".to_string())));
}

#[test]
fn client_missing_server_records_status_and_fails() {
    let obj = client(Some("ns"), vec![]);
    let (st, _) = cli_reconcile_begin(&obj);
    let (st, action) = cli_reconcile_step(&obj, st.unwrap(), ClientEvent::Fetched(false));
    match action {
        ClientAction::PatchStatus { namespace, name, status } => {
            assert_eq!(namespace, "ns");
            assert_eq!(name, "obj");
            assert_eq!(status.server_ref, "edge");
            assert!(!status.server_config_ok);
            assert!(!status.server_deploy_ok);
        },
        other => panic!("unexpected {:?}", other),
    }
    let (st, action) = cli_reconcile_step(&obj, st.unwrap(), ClientEvent::Patched(true));
    assert!(st.is_none());
    assert_eq!(action, fail(Failure::NoTargetServerConfig));
}

#[test]
fn client_missing_server_without_name_fails_at_once() {
    let mut obj = client(Some("ns"), vec![]);
    obj.metadata.name = None;
    let (st, _) = cli_reconcile_begin(&obj);
    let (st, action) = cli_reconcile_step(&obj, st.unwrap(), ClientEvent::Fetched(false));
    assert!(st.is_none());
    assert_eq!(action, fail(Failure::NoTargetServerConfig));
}

#[test]
fn client_missing_server_deployment_records_status_and_fails() {
    let obj = client(Some("ns"), vec![]);
    let (st, _) = cli_reconcile_begin(&obj);
    let (st, _) = cli_reconcile_step(&obj, st.unwrap(), ClientEvent::Fetched(true));
    let (st, action) = cli_reconcile_step(&obj, st.unwrap(), ClientEvent::Fetched(false));
    match action {
        ClientAction::PatchStatus { status, .. } => {
            assert!(status.server_config_ok);
            assert!(!status.server_deploy_ok);
        },
        other => panic!("unexpected {:?}", other),
    }
    let (st, action) = cli_reconcile_step(&obj, st.unwrap(), ClientEvent::Patched(false));
    assert!(st.is_none());
    assert_eq!(action, fail(Failure::NoTargetServer));
}

#[test]
fn client_reference_without_secret_ref_fails() {
    let obj = client(Some("ns"), vec![direct("a", Some("k")), by_reference("b", None, None)]);
    let (st, action) = past_server_checks(&obj);
    assert!(st.is_none());
    assert_eq!(
        action,
        fail(Failure::DefaultError("Secret type is set to Reference, but no data on SecretRef.".to_string()))
    );
}

#[test]
fn client_token_secret_unreadable_fails() {
    let obj = client(Some("ns"), vec![by_reference("b", Some(("tokens", "b")), Some(SecretType::Reference))]);
    let (st, action) = past_server_checks(&obj);
    assert_eq!(
        action,
        ClientAction::GetSecretKey { namespace: "ns".to_string(), name: "tokens".to_string(), key: "b".to_string() }
    );
    let (st, action) = cli_reconcile_step(&obj, st.unwrap(), ClientEvent::TokenFetched(Err(())));
    assert!(st.is_none());
    assert_eq!(action, fail(Failure::NoTargetToken));
}

#[test]
fn client_server_config_unreadable_fails() {
    let obj = client(Some("ns"), vec![]);
    let (st, action) = past_server_checks(&obj);
    assert_eq!(action, ClientAction::GetServerConfig { namespace: "ns".to_string(), name: "edge".to_string() });
    let (st, action) = cli_reconcile_step(&obj, st.unwrap(), ClientEvent::ServerConfigFetched(Err(())));
    assert!(st.is_none());
    assert_eq!(action, fail(Failure::NoServerConfigFound));
}

#[test]
fn client_server_config_secret_without_name_fails() {
    let obj = client(Some("ns"), vec![]);
    let (st, _) = past_server_checks(&obj);
    let cfg = Config::runset(Arc::new(server(Some("ns"))));
    let (st, action) = cli_reconcile_step(&obj, st.unwrap(), ClientEvent::ServerConfigFetched(Ok((None, cfg))));
    assert!(st.is_none());
    assert_eq!(action, fail(Failure::MissingObjectKey(".metadata.name".to_string())));
}

#[test]
fn client_reconcile_collects_tokens_and_patches_server_config() {
    let obj = client(
        Some("ns"),
        vec![
            direct("ssh", Some("k1")),
            by_reference("web", Some(("tokens", "web")), None),
            by_reference("gone", Some(("tokens", "gone")), Some(SecretType::Reference)),
            direct("db", Some("k3")),
        ],
    );
    let (st, action) = past_server_checks(&obj);
    assert_eq!(
        action,
        ClientAction::GetSecretKey { namespace: "ns".to_string(), name: "tokens".to_string(), key: "web".to_string() }
    );
    let st = st.unwrap();
    assert_eq!(st.step, ClientStep::AwaitToken(1));
    assert_eq!(st.collected.len(), 1);
    let (st, action) = cli_reconcile_step(&obj, st, ClientEvent::TokenFetched(Ok(Some("k2".to_string()))));
    assert_eq!(
        action,
        ClientAction::GetSecretKey { namespace: "ns".to_string(), name: "tokens".to_string(), key: "gone".to_string() }
    );
    let (st, action) = cli_reconcile_step(&obj, st.unwrap(), ClientEvent::TokenFetched(Ok(None)));
    assert_eq!(action, ClientAction::GetServerConfig { namespace: "ns".to_string(), name: "edge".to_string() });
    let st = st.unwrap();
    assert_eq!(st.collected.len(), 3);
    assert_eq!(st.collected.get(&"web".to_string()).unwrap().token, Some("k2".to_string()));
    assert!(st.collected.get(&"gone".to_string()).is_none());
    let cfg = Config::runset(Arc::new(server(Some("ns"))));
    let (st, action) = cli_reconcile_step(
        &obj,
        st,
        ClientEvent::ServerConfigFetched(Ok((Some("edge-secret".to_string()), cfg))),
    );
    let config = match action {
        ClientAction::PatchSecret { namespace, name, config } => {
            assert_eq!(namespace, "ns");
            assert_eq!(name, "edge-secret");
            config
        },
        other => panic!("unexpected {:?}", other),
    };
    let services = config.server.unwrap().services;
    assert_eq!(services.len(), 4);
    let ssh = services.get(&"ssh".to_string()).unwrap();
    assert_eq!(ssh.bind_addr, "127.0.0.1:22");
    assert_eq!(ssh.token, Some("k1".to_string()));
    let web = services.get(&"web".to_string()).unwrap();
    assert_eq!(web.bind_addr, "10.0.0.1:80");
    assert_eq!(web.token, Some("k2".to_string()));
    assert_eq!(web.nodelay, Some(false));
    assert_eq!(services.get(&"db".to_string()).unwrap().token, Some("k3".to_string()));
    assert!(services.get(&"dummy".to_string()).is_some());
    let st = st.unwrap();
    assert_eq!(st.step, ClientStep::AwaitPatch);
    let (st, action) = cli_reconcile_step(&obj, st, ClientEvent::Patched(true));
    match action {
        ClientAction::PatchClientSecret { namespace, name, secret } => {
            assert_eq!(namespace, "ns");
            assert_eq!(name, "obj-config");
            assert_eq!(secret, obj.to_config());
        },
        other => panic!("unexpected {:?}", other),
    }
    let (st, action) = cli_reconcile_step(&obj, st.unwrap(), ClientEvent::Patched(true));
    assert!(st.is_none());
    assert_eq!(action, ClientAction::Finish(Outcome::Requeue(10)));
}

#[test]
fn client_secret_patch_failure() {
    let obj = client(Some("ns"), vec![]);
    let (st, _) = past_server_checks(&obj);
    let cfg = Config::runset(Arc::new(server(Some("ns"))));
    let (st, _) = cli_reconcile_step(&obj, st.unwrap(), ClientEvent::ServerConfigFetched(Ok((Some("s".to_string()), cfg))));
    let (st, _) = cli_reconcile_step(&obj, st.unwrap(), ClientEvent::Patched(true));
    let (st, action) = cli_reconcile_step(&obj, st.unwrap(), ClientEvent::Patched(false));
    assert!(st.is_none());
    assert_eq!(action, fail(Failure::SecretCreationFailed));
}

#[test]
fn client_naming_no_config_secret_fails() {
    let mut obj = client(Some("ns"), vec![]);
    obj.spec.config_to.name = None;
    obj.spec.config_to.namespace = Some("elsewhere".to_string());
    let (st, _) = past_server_checks(&obj);
    let cfg = Config::runset(Arc::new(server(Some("ns"))));
    let (st, _) = cli_reconcile_step(&obj, st.unwrap(), ClientEvent::ServerConfigFetched(Ok((Some("s".to_string()), cfg))));
    let (st, action) = cli_reconcile_step(&obj, st.unwrap(), ClientEvent::Patched(true));
    assert!(st.is_none());
    assert_eq!(action, fail(Failure::MissingObjectKey(".spec.configTo.name".to_string())));
}

#[test]
fn client_secret_goes_to_the_namespace_it_names() {
    let mut obj = client(Some("ns"), vec![]);
    obj.spec.config_to.namespace = Some("elsewhere".to_string());
    let (st, _) = past_server_checks(&obj);
    let cfg = Config::runset(Arc::new(server(Some("ns"))));
    let (st, _) = cli_reconcile_step(&obj, st.unwrap(), ClientEvent::ServerConfigFetched(Ok((Some("s".to_string()), cfg))));
    let (_, action) = cli_reconcile_step(&obj, st.unwrap(), ClientEvent::Patched(true));
    match action {
        ClientAction::PatchClientSecret { namespace, .. } => assert_eq!(namespace, "elsewhere"),
        other => panic!("unexpected {:?}", other),
    }
}

#[test]
fn client_patch_failure() {
    let obj = client(Some("ns"), vec![]);
    let (st, _) = past_server_checks(&obj);
    let cfg = Config { server: None, client: None };
    let (st, action) =
        cli_reconcile_step(&obj, st.unwrap(), ClientEvent::ServerConfigFetched(Ok((Some("s".to_string()), cfg))));
    match &action {
        ClientAction::PatchSecret { config, .. } => assert_eq!(*config, Config { server: None, client: None }),
        other => panic!("unexpected {:?}", other),
    }
    let (st, action) = cli_reconcile_step(&obj, st.unwrap(), ClientEvent::Patched(false));
    assert!(st.is_none());
    assert_eq!(action, fail(Failure::SecretCreationFailed));
}

#[test]
fn client_panics_detected_for_direct_service_without_key() {
    let obj = client(Some("ns"), vec![direct("a", Some("k")), direct("b", None)]);
    let (st, _) = cli_reconcile_begin(&obj);
    let (st, _) = cli_reconcile_step(&obj, st.unwrap(), ClientEvent::Fetched(true));
    let st = st.unwrap();
    assert!(cli_step_would_panic(&obj, &st, &ClientEvent::Fetched(true)));
    assert!(!cli_step_would_panic(&obj, &st, &ClientEvent::Fetched(false)));
}

#[test]
fn client_panics_detected_for_services_without_server_part() {
    let obj = client(Some("ns"), vec![direct("a", Some("k"))]);
    let (st, _) = past_server_checks(&obj);
    let st = st.unwrap();
    let none = ClientEvent::ServerConfigFetched(Ok((Some("s".to_string()), Config { server: None, client: None })));
    assert!(cli_step_would_panic(&obj, &st, &none));
    let some = ClientEvent::ServerConfigFetched(Ok((Some("s".to_string()), Config::runset(Arc::new(server(None))))));
    assert!(!cli_step_would_panic(&obj, &st, &some));
}

/// Runs a client reconcile in which every request succeeds, each token
/// secret holding `tok-<service>`, and returns the configuration it sends
/// and the number of answers it took.
fn run_client(obj: &Client) -> (Config, usize) {
    let (mut st, mut action) = cli_reconcile_begin(obj);
    let mut answers = 0;
    let mut sent = None;
    loop {
        let event = match &action {
            ClientAction::GetServer { .. } | ClientAction::GetDeployment { .. } => ClientEvent::Fetched(true),
            ClientAction::GetSecretKey { key, .. } => ClientEvent::TokenFetched(Ok(Some(format!("tok-{}", key)))),
            ClientAction::GetServerConfig { .. } => ClientEvent::ServerConfigFetched(Ok((
                Some("edge".to_string()),
                Config::runset(Arc::new(server(Some("ns")))),
            ))),
            ClientAction::PatchSecret { config, .. } => {
                sent = Some(config.clone());
                ClientEvent::Patched(true)
            },
            ClientAction::PatchClientSecret { .. } | ClientAction::PatchStatus { .. } => ClientEvent::Patched(true),
            ClientAction::Finish(outcome) => {
                assert_eq!(*outcome, Outcome::Requeue(10));
                return (sent.unwrap(), answers);
            },
        };
        answers += 1;
        let (next, next_action) = cli_reconcile_step(obj, st.unwrap(), event);
        st = next;
        action = next_action;
    }
}

#[test]
fn client_reconcile_finishes_within_bound() {
    let services = vec![
        direct("a", Some("1")),
        by_reference("b", Some(("s", "b")), None),
        by_reference("c", Some(("s", "c")), Some(SecretType::Reference)),
        direct("d", Some("4")),
    ];
    let n = services.len();
    let (_, answers) = run_client(&client(Some("ns"), services));
    assert!(answers <= n + 7);
    assert_eq!(answers, 7);
}

#[test]
fn client_services_order_does_not_change_config() {
    let one = client(
        Some("ns"),
        vec![direct("a", Some("1")), by_reference("b", Some(("s", "b")), None), direct("c", Some("3"))],
    );
    let two = client(
        Some("ns"),
        vec![direct("c", Some("3")), direct("a", Some("1")), by_reference("b", Some(("s", "b")), None)],
    );
    let (c1, _) = run_client(&one);
    let (c2, _) = run_client(&two);
    let s1 = c1.server.unwrap().services;
    let s2 = c2.server.unwrap().services;
    assert_eq!(s1.len(), s2.len());
    for (name, service) in s1.entries() {
        assert_eq!(s2.get(name), Some(service));
    }
}
