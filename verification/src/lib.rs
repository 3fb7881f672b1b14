//! Kubernetes operator for rathole: the custom resources, the rathole
//! configuration built from them, and the decisions of the reconcilers.
pub mod text;
pub mod table;
pub mod k8s;
pub mod crd;
pub mod genkey;
pub mod rathole;
pub mod config;
pub mod method;
pub mod controller;
