use std::sync::Arc;

use rathole_operator::crd::{
    self, Server, ServerSpec, ServiceConfig, SecretType, Token, Transport, Uri,
};
use rathole_operator::k8s::ObjectMeta;
use rathole_operator::rathole::{
    default_client_retry_interval, default_heartbeat_interval, default_heartbeat_timeout,
    default_keepalive_interval, default_keepalive_secs, default_noise_pattern, default_nodelay,
    default_service_type, dummy_service, ClientServiceConfig, Config, NoiseConfig,
    ServerServiceConfig, ServiceType, TcpConfig, TransportConfig, TransportType,
};

fn server(host: &str, port: i32, heartbeat: i32) -> Server {
    Server {
        metadata: ObjectMeta {
            name: Some("srv".to_string()),
            namespace: Some("ns".to_string()),
            uid: Some("uid-1".to_string()),
            labels: None,
            owner_references: None,
        },
        spec: ServerSpec {
            bind_addr: Uri { host: host.to_string(), port },
            default_token: None,
            expose_addr: Uri { host: "example.com".to_string(), port: 443 },
            heartbeat_interval: heartbeat,
            transport: Transport {
                transport_type: crd::TransportType::Noise,
                tcp: None,
                tls: None,
                websocket: None,
                noise: None,
            },
        },
        status: None,
    }
}

fn service(name: &str, host: &str, port: i32, key: Option<&str>, nodelay: bool) -> ServiceConfig {
    ServiceConfig {
        name: name.to_string(),
        local_addr: Uri { host: host.to_string(), port },
        service_type: None,
        nodelay,
        retry_interval: 1,
        token: Token {
            secret_type: Some(SecretType::Direct),
            key: key.map(|k| k.to_string()),
            secret_ref: None,
        },
    }
}

#[test]
fn rathole_defaults() {
    assert_eq!(default_service_type(), ServiceType::Tcp);
    assert_eq!(ServiceType::default(), ServiceType::Tcp);
    assert_eq!(TransportType::default(), TransportType::Tcp);
    assert!(default_nodelay());
    assert_eq!(default_keepalive_secs(), 20);
    assert_eq!(default_keepalive_interval(), 8);
    assert_eq!(default_heartbeat_timeout(), 40);
    assert_eq!(default_client_retry_interval(), 1);
    assert_eq!(default_heartbeat_interval(), 30);
    assert_eq!(default_noise_pattern(), "Noise_NK_25519_ChaChaPoly_BLAKE2s");
}

#[test]
fn tcp_config_default() {
    let c = TcpConfig::default();
    assert!(c.nodelay);
    assert_eq!(c.keepalive_secs, 20);
    assert_eq!(c.keepalive_interval, 8);
    assert_eq!(c.proxy, None);
}

#[test]
fn transport_and_noise_defaults() {
    let t = TransportConfig::default();
    assert_eq!(t.transport_type, TransportType::Tcp);
    assert!(t.tcp.is_none() && t.tls.is_none() && t.noise.is_none() && t.websocket.is_none());
    let n = NoiseConfig::default();
    assert_eq!(n.pattern, "");
    assert_eq!(n.local_private_key, None);
    assert_eq!(n.remote_public_key, None);
}

#[test]
fn client_service_with_name() {
    let c = ClientServiceConfig::with_name("ssh");
    assert_eq!(c.name, "ssh");
    assert_eq!(c.service_type, ServiceType::Tcp);
    assert_eq!(c.local_addr, "");
    assert_eq!(c.token, None);
    assert_eq!(c.nodelay, None);
    assert_eq!(c.retry_interval, None);
}

#[test]
fn server_service_with_name() {
    let c = ServerServiceConfig::with_name("web");
    assert_eq!(c.name, "web");
    assert_eq!(c.service_type, ServiceType::Tcp);
    assert_eq!(c.bind_addr, "");
    assert_eq!(c.token, None);
    assert_eq!(c.nodelay, None);
}

#[test]
fn dummy_service_is_one_default_service() {
    let t = dummy_service();
    assert_eq!(t.len(), 1);
    assert_eq!(t.get(&"dummy".to_string()), Some(&ServerServiceConfig::default()));
}

#[test]
fn runset_builds_server_config() {
    let c = Config::runset(Arc::new(server("0.0.0.0", 2333, 45)));
    assert!(c.client.is_none());
    let s = c.server.expect("server part");
    assert_eq!(s.bind_addr, "0.0.0.0:2333");
    assert_eq!(s.default_token, None);
    assert_eq!(s.heartbeat_interval, 45);
    assert_eq!(s.services.len(), 1);
    let dummy = s.services.get(&"dummy".to_string()).expect("dummy service");
    assert_eq!(dummy.bind_addr, "0.0.0.0:80");
    assert_eq!(dummy.token, Some("nouse".to_string()));
    assert_eq!(dummy.name, "");
    assert_eq!(dummy.service_type, ServiceType::Tcp);
    assert_eq!(dummy.nodelay, None);
    assert_eq!(s.transport.transport_type, TransportType::Noise);
    let noise = s.transport.noise.expect("noise settings");
    assert_eq!(noise.pattern, "Noise_NK_25519_ChaChaPoly_BLAKE2s");
    assert!(s.transport.tcp.is_none() && s.transport.tls.is_none() && s.transport.websocket.is_none());
}

#[test]
fn runset_negative_heartbeat_wraps_like_a_cast() {
    let c = Config::runset(Arc::new(server("h", 1, -1)));
    assert_eq!(c.server.unwrap().heartbeat_interval, u64::MAX);
}

#[test]
fn add_services_inserts_each_service() {
    let mut c = Config::runset(Arc::new(server("0.0.0.0", 2333, 30)));
    c.add_services(vec![
        service("ssh", "127.0.0.1", 22, Some("secret"), true),
        service("web", "10.0.0.1", 8080, None, false),
    ]);
    let s = c.server.unwrap();
    assert_eq!(s.services.len(), 3);
    let ssh = s.services.get(&"ssh".to_string()).unwrap();
    assert_eq!(ssh.name, "ssh");
    assert_eq!(ssh.bind_addr, "127.0.0.1:22");
    assert_eq!(ssh.token, Some("secret".to_string()));
    assert_eq!(ssh.nodelay, Some(true));
    assert_eq!(ssh.service_type, ServiceType::Tcp);
    let web = s.services.get(&"web".to_string()).unwrap();
    assert_eq!(web.bind_addr, "10.0.0.1:8080");
    assert_eq!(web.token, None);
    assert_eq!(web.nodelay, Some(false));
    assert!(s.services.get(&"dummy".to_string()).is_some());
    assert_eq!(s.bind_addr, "0.0.0.0:2333");
}

#[test]
fn add_services_last_of_a_name_wins() {
    let mut c = Config::runset(Arc::new(server("0.0.0.0", 2333, 30)));
    c.add_services(vec![
        service("ssh", "127.0.0.1", 22, Some("a"), true),
        service("ssh", "127.0.0.2", 2222, Some("b"), false),
    ]);
    let s = c.server.unwrap();
    assert_eq!(s.services.len(), 2);
    let ssh = s.services.get(&"ssh".to_string()).unwrap();
    assert_eq!(ssh.bind_addr, "127.0.0.2:2222");
    assert_eq!(ssh.token, Some("b".to_string()));
}

#[test]
fn add_no_services_to_client_only_config() {
    let mut c = Config { server: None, client: None };
    c.add_services(vec![]);
    assert_eq!(c, Config { server: None, client: None });
}

#[test]
fn add_service_replaces_dummy() {
    let mut c = Config::runset(Arc::new(server("0.0.0.0", 2333, 30)));
    let mut dat = ClientServiceConfig::with_name("dummy");
    dat.local_addr = "1.2.3.4:5".to_string();
    dat.token = Some("t".to_string());
    dat.nodelay = Some(true);
    dat.service_type = ServiceType::Udp;
    c.add_service(dat);
    let s = c.server.unwrap();
    assert_eq!(s.services.len(), 1);
    let d = s.services.get(&"dummy".to_string()).unwrap();
    assert_eq!(d.name, "dummy");
    assert_eq!(d.bind_addr, "1.2.3.4:5");
    assert_eq!(d.token, Some("t".to_string()));
    assert_eq!(d.nodelay, Some(true));
    assert_eq!(d.service_type, ServiceType::Tcp);
}

#[test]
fn add_services_is_add_service_of_each_to_config() {
    let dat = vec![
        service("ssh", "127.0.0.1", 22, Some("a"), true),
        service("web", "10.0.0.1", 80, Some("b"), false),
        service("ssh", "127.0.0.2", 2222, Some("c"), false),
    ];
    let mut c1 = Config::runset(Arc::new(server("0.0.0.0", 2333, 30)));
    let mut c2 = c1.clone();
    c2.add_services(dat.clone());
    for s in &dat {
        c1.add_service(s.to_config(s.token.key.clone().unwrap()));
    }
    let (s1, s2) = (c1.server.unwrap(), c2.server.unwrap());
    assert_eq!(s1.services.len(), s2.services.len());
    for (name, v) in s2.services.entries() {
        let w = s1.services.get(name).unwrap();
        assert_eq!((&w.bind_addr, &w.token, w.nodelay, w.service_type), (&v.bind_addr, &v.token, v.nodelay, v.service_type));
    }
}

