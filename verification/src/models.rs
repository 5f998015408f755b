//! The data model: a point-in-time container snapshot, the derived service
//! configuration, and the compile error taxonomy with its diagnostic texts.

use vstd::prelude::*;
use vstd::string::StringExecFns;
use crate::text::joined;

verus! {

/// Point-in-time view of one container: identity, display name, label
/// mapping, primary IP, per-network IP mapping (in the runtime's enumeration
/// order), and the exposed container ports.
#[derive(Debug, Clone)]
pub struct ContainerInfo {
    pub id: String,
    pub name: String,
    pub labels: Vec<(String, String)>,
    pub ip_address: Option<String>,
    pub ports: Vec<u16>,
    pub networks: Vec<(String, String)>,
}

/// The derived declarative routing unit for one service.
#[derive(Debug, Clone)]
pub struct PingapServiceConfig {
    pub name: String,
    pub upstreams: Vec<String>,
    pub location: PingapLocation,
    pub upstream_config: Option<UpstreamConfig>,
    pub health_check: Option<HealthCheckConfig>,
    pub middleware_config: Option<MiddlewareConfig>,
    pub tls_config: Option<TlsConfig>,
}

/// Load-balancing hints for the upstream.
#[derive(Debug, Clone)]
pub struct UpstreamConfig {
    pub weight: Option<u32>,
    pub strategy: Option<String>,
}

/// Health-check endpoint and timing, the durations as strings like `10s`.
#[derive(Debug, Clone)]
pub struct HealthCheckConfig {
    pub path: String,
    pub interval: Option<String>,
    pub timeout: Option<String>,
}

/// The optional middleware bundle: path rewriting, header injection, CORS,
/// compression, rate limiting, basic auth and redirects.
#[derive(Debug, Clone)]
pub struct MiddlewareConfig {
    pub strip_prefix: Option<String>,
    pub add_prefix: Option<String>,
    pub custom_request_headers: Option<Vec<String>>,
    pub custom_response_headers: Option<Vec<String>>,
    pub cors_enabled: Option<bool>,
    pub compress: Option<bool>,
    pub ratelimit_average: Option<u32>,
    pub ratelimit_burst: Option<u32>,
    pub basic_auth: Option<String>,
    pub redirect_scheme: Option<String>,
    pub redirect_regex: Option<String>,
}

/// TLS detail, present only when the top-level TLS flag is exactly `true`.
#[derive(Debug, Clone)]
pub struct TlsConfig {
    pub enabled: bool,
    pub redirect: Option<bool>,
    pub domains: Option<Vec<String>>,
}

/// The routing rule with its matching order and the legacy middleware list.
#[derive(Debug, Clone)]
pub struct PingapLocation {
    pub rule: String,
    pub priority: Option<i32>,
    pub middlewares: Option<Vec<String>>,
    pub tls: Option<bool>,
}

/// Why a labelled container could not be compiled into a service
/// configuration.  Each variant carries enough context to diagnose the
/// problem without a debugger.
#[derive(Debug, Clone)]
pub enum CompileError {
    /// The network named by the selection label is not one the container is
    /// attached to; `available` lists those it is.
    UnknownNetwork { container: String, network: String, available: Vec<String> },
    /// No primary IP and no network IP to fall back on.
    NoIpAddress { container: String },
    /// The explicit port label does not parse as an unsigned 16-bit integer.
    InvalidPort { container: String, value: String },
    /// No explicit port label and the runtime reports no exposed port.
    NoExposedPorts { container: String },
    /// The container is enabled but carries no routing rule in any form.
    NoRoutingRule { container: String },
}

/// The quoted, comma-separated network list in an unknown-network message.
pub open spec fn quoted_list(names: Seq<Seq<char>>) -> Seq<char> {
    joined(names.map_values(|n: Seq<char>| "\""@ + n + "\""@), ", "@)
}

/// The diagnostic text of each compile error.
pub open spec fn error_message(e: &CompileError) -> Seq<char> {
    match e {
        CompileError::UnknownNetwork { container, network, available } => "Container "@
            + container@ + " is not connected to network '"@ + network@
            + "'. Available networks: ["@ + quoted_list(
            available@.map_values(|n: String| n@),
        ) + "]"@,
        CompileError::NoIpAddress { container } => "No IP address found for container "@
            + container@,
        CompileError::InvalidPort { container, value } => "Invalid port '"@ + value@
            + "' under pingap.service.port for container "@ + container@,
        CompileError::NoExposedPorts { container } => "No exposed ports found for container "@
            + container@ + ". Use pingap.service.port label to specify port explicitly."@,
        CompileError::NoRoutingRule { container } => "Container "@ + container@
            + " has pingap.enable=true but no routing rule. Provide one of: pingap.http.rule, pingap.http.host, or pingap.http.paths"@,
    }
}

impl CompileError {
    /// The diagnostic text, naming the container and what was wrong.
    pub fn message(&self) -> (r: String)
        ensures
            r@ == error_message(self),
    {
        match self {
            CompileError::UnknownNetwork { container, network, available } => {
                let mut quoted: Vec<String> = Vec::new();
                let mut i: usize = 0;
                proof {
                    let f = |p: String| p@;
                    let g = |n: Seq<char>| "\""@ + n + "\""@;
                    assert(quoted@.map_values(f) =~= available@.take(0).map_values(
                        |n: String| n@,
                    ).map_values(g));
                }
                while i < available.len()
                    invariant
                        i <= available@.len(),
                        quoted@.map_values(|p: String| p@) == available@.take(i as int).map_values(
                            |n: String| n@,
                        ).map_values(|n: Seq<char>| "\""@ + n + "\""@),
                    decreases available@.len() - i,
                {
                    let mut q = String::from_str("\"");
                    q.append(available[i].as_str());
                    q.append("\"");
                    proof {
                        let f = |p: String| p@;
                        let g = |n: Seq<char>| "\""@ + n + "\""@;
                        let v = |n: String| n@;
                        assert(quoted@.push(q).map_values(f) =~= quoted@.map_values(f).push(q@));
                        assert(available@.take(i + 1).map_values(v).map_values(g) =~= available@.take(
                            i as int,
                        ).map_values(v).map_values(g).push(g(available@[i as int]@)));
                    }
                    quoted.push(q);
                    i += 1;
                }
                proof {
                    assert(available@.take(available@.len() as int) =~= available@);
                }
                let list = crate::text::join_with(&quoted, ", ");
                let mut out = String::from_str("Container ");
                out.append(container.as_str());
                out.append(" is not connected to network '");
                out.append(network.as_str());
                out.append("'. Available networks: [");
                out.append(list.as_str());
                out.append("]");
                proof {
                    assert(out@ =~= error_message(self));
                }
                out
            },
            CompileError::NoIpAddress { container } => {
                let mut out = String::from_str("No IP address found for container ");
                out.append(container.as_str());
                proof {
                    assert(out@ =~= error_message(self));
                }
                out
            },
            CompileError::InvalidPort { container, value } => {
                let mut out = String::from_str("Invalid port '");
                out.append(value.as_str());
                out.append("' under pingap.service.port for container ");
                out.append(container.as_str());
                proof {
                    assert(out@ =~= error_message(self));
                }
                out
            },
            CompileError::NoExposedPorts { container } => {
                let mut out = String::from_str("No exposed ports found for container ");
                out.append(container.as_str());
                out.append(". Use pingap.service.port label to specify port explicitly.");
                proof {
                    assert(out@ =~= error_message(self));
                }
                out
            },
            CompileError::NoRoutingRule { container } => {
                let mut out = String::from_str("Container ");
                out.append(container.as_str());
                out.append(
                    " has pingap.enable=true but no routing rule. Provide one of: pingap.http.rule, pingap.http.host, or pingap.http.paths",
                );
                proof {
                    assert(out@ =~= error_message(self));
                }
                out
            },
        }
    }
}

} // verus!
