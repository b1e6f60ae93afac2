//! The configuration shapes the application is built from. Loading them
//! from files and the process environment is the caller's concern; the
//! library only fixes the shapes.

use vstd::prelude::*;

verus! {

/// The HTTP application endpoint.
#[derive(Debug, Clone)]
pub struct App {
    pub port: u16,
    pub host: String,
}

/// The top-level configuration.
#[derive(Debug, Clone)]
pub struct Config {
    pub app: App,
}

/// Where and how logs are written.
#[derive(Debug, Clone)]
pub struct LogConfig {
    pub level: String,
    pub output: String,
    pub suffix: String,
    pub prefix: String,
}

/// The RPC server endpoint and its request timeout.
#[derive(Debug, Clone)]
pub struct GrpcServerConfig {
    pub port: String,
    pub timeout: u16,
}

/// The HTTP server endpoint.
#[derive(Debug, Clone)]
pub struct HttpServerConfig {
    pub port: u16,
    pub host: String,
}

/// Both server endpoints.
#[derive(Debug, Clone)]
pub struct ServerConfig {
    pub grpc: GrpcServerConfig,
    pub http: HttpServerConfig,
}

} // verus!
