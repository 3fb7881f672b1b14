# rathole-operator

A Kubernetes operator for [rathole](https://github.com/rapiz1/rathole). A
`Server` resource becomes a rathole server configuration, holding the services
of the clients it serves, a secret that holds it and a deployment that runs it;
a `Client` resource adds its services, with their tokens, to the configuration
of the server it names, applies its own configuration secret, and records in
its status when its server is missing.

Layout:

- `src/` — the library, verified with Verus:
  - `crd.rs`: the custom resources;
  - `rathole.rs`: the rathole configuration and how services are added to it;
  - `method.rs`: what the resources become (service configs, secrets, the deployment);
  - `controller.rs`: the decisions of the two reconcilers, as steps from an
    answer of the cluster to the next request;
  - `genkey.rs`: Noise keypair generation;
  - `k8s.rs`, `table.rs`, `text.rs`, `config.rs`: object models, named tables,
    decimal text, settings.
- `app/` — the program: HTTP health endpoints, the kube controllers that make
  the requests the reconcilers ask for, serde forms of the resources and of the
  configuration file.
- `tests/` — tests of the library.

Named tables: the service lists of the rathole configuration and the labels
and data of Kubernetes objects are maps keyed by strings. Verus proves next to
nothing about std's `HashMap` and `BTreeMap` with `String` keys, so the library
keeps them in `NamedTable` (`src/table.rs`): a vector of named entries whose
names are distinct (a type invariant), seen as a `Map` from names to values.
`app/` converts to and from the std maps that serde and k8s-openapi use.
