//! The label-to-configuration compiler: a pure function from a container
//! snapshot to a structured service configuration, a "not enabled" answer,
//! or a descriptive failure.
//!
//! Enablement is strictly opt-in: only the exact label value `true` under
//! `pingap.enable` enables a container.  The service name comes from an
//! override label or the display name with leading slashes stripped.  The
//! upstream address is an override label outright, or a resolved IP and
//! port.  The routing rule is an explicit label or is composed from host
//! and path aliases in the `Host(...)`/`PathPrefix(...)` grammar.

use vstd::prelude::*;
use vstd::string::StringExecFns;
use crate::models::{
    CompileError, ContainerInfo, HealthCheckConfig, MiddlewareConfig, PingapLocation,
    PingapServiceConfig, TlsConfig, UpstreamConfig,
};
use crate::text::{
    dec_str, joined, parse_i32_spec, parse_u16_spec, parse_u32_spec, split_commas, strip_leading,
    trim_spec,
};

verus! {

/// The value under the first entry whose key equals `key`, if any.
pub open spec fn label_of(entries: Seq<(String, String)>, key: Seq<char>) -> Option<Seq<char>>
    decreases entries.len(),
{
    if entries.len() == 0 {
        Option::None
    } else if entries[0].0@ == key {
        Option::Some(entries[0].1@)
    } else {
        label_of(entries.drop_first(), key)
    }
}

/// The container's label value under `key`, if any.
pub open spec fn lbl(c: &ContainerInfo, key: Seq<char>) -> Option<Seq<char>> {
    label_of(c.labels@, key)
}

/// Looks a key up in an association list, first match wins.
pub fn assoc_get<'a>(entries: &'a Vec<(String, String)>, key: &str) -> (r: Option<&'a String>)
    ensures
        match r {
            Option::Some(v) => label_of(entries@, key@) == Option::Some(v@),
            Option::None => label_of(entries@, key@) is None,
        },
{
    let mut i: usize = 0;
    proof {
        assert(entries@.skip(0) =~= entries@);
    }
    while i < entries.len()
        invariant
            i <= entries@.len(),
            label_of(entries@, key@) == label_of(entries@.skip(i as int), key@),
        decreases entries@.len() - i,
    {
        proof {
            assert(entries@.skip(i as int).drop_first() =~= entries@.skip(i + 1));
            assert(entries@.skip(i as int)[0] == entries@[i as int]);
        }
        if crate::text::str_eq(entries[i].0.as_str(), key) {
            return Some(&entries[i].1);
        }
        i += 1;
    }
    None
}

/// Only the exact label value `true` opts a container in.
pub open spec fn spec_enabled(c: &ContainerInfo) -> bool {
    lbl(c, "pingap.enable"@) == Option::Some("true"@)
}

/// The service name: the override label if present, else the display name
/// with every leading slash stripped.
pub open spec fn spec_service_name(c: &ContainerInfo) -> Seq<char> {
    match lbl(c, "pingap.service.name"@) {
        Option::Some(v) => v,
        Option::None => strip_leading(c.name@, '/'),
    }
}

/// The IP the compiler would use, resolved in order: the selected network's
/// IP, else the primary IP, else the first network IP in enumeration order.
/// `None` means resolution failed.
pub open spec fn spec_ip(c: &ContainerInfo) -> Option<Seq<char>> {
    match lbl(c, "pingap.docker.network"@) {
        Option::Some(net) => label_of(c.networks@, net),
        Option::None => match c.ip_address {
            Option::Some(ip) => Option::Some(ip@),
            Option::None => if c.networks@.len() > 0 {
                Option::Some(c.networks@[0].1@)
            } else {
                Option::None
            },
        },
    }
}

pub open spec fn spec_ip_val(c: &ContainerInfo) -> Seq<char> {
    match spec_ip(c) {
        Option::Some(v) => v,
        Option::None => Seq::empty(),
    }
}

/// The port the compiler would use: the parsed explicit label if present,
/// else the first exposed port.  Meaningful only when no port failure holds.
pub open spec fn spec_port_val(c: &ContainerInfo) -> u16 {
    match lbl(c, "pingap.service.port"@) {
        Option::Some(v) => match parse_u16_spec(v) {
            Option::Some(p) => p,
            Option::None => 0,
        },
        Option::None => if c.ports@.len() > 0 {
            c.ports@[0]
        } else {
            0
        },
    }
}

/// The single upstream address: the override label outright, else `ip:port`.
pub open spec fn spec_address(c: &ContainerInfo) -> Seq<char> {
    match lbl(c, "pingap.service.address"@) {
        Option::Some(a) => a,
        Option::None => spec_ip_val(c) + ":"@ + dec_str(spec_port_val(c) as nat),
    }
}

/// A host-match predicate in the rule grammar.
pub open spec fn host_rule(h: Seq<char>) -> Seq<char> {
    "Host(`"@ + h + "`)"@
}

/// A path-prefix predicate over one trimmed path entry.
pub open spec fn path_piece(p: Seq<char>) -> Seq<char> {
    "PathPrefix(`"@ + trim_spec(p) + "`)"@
}

/// The OR-joined path predicates of a comma-separated path list.
pub open spec fn paths_rule(paths: Seq<char>) -> Seq<char> {
    joined(split_commas(paths).map_values(|p: Seq<char>| path_piece(p)), " || "@)
}

/// The routing rule: the explicit label verbatim, else composed from the
/// host and path aliases; `None` when no rule can be derived.
pub open spec fn spec_rule_opt(c: &ContainerInfo) -> Option<Seq<char>> {
    match lbl(c, "pingap.http.rule"@) {
        Option::Some(r) => Option::Some(r),
        Option::None => match (lbl(c, "pingap.http.host"@), lbl(c, "pingap.http.paths"@)) {
            (Option::Some(h), Option::Some(p)) => Option::Some(
                host_rule(h) + " && ("@ + paths_rule(p) + ")"@,
            ),
            (Option::Some(h), Option::None) => Option::Some(host_rule(h)),
            (Option::None, Option::Some(p)) => Option::Some(paths_rule(p)),
            (Option::None, Option::None) => Option::None,
        },
    }
}

pub open spec fn spec_rule(c: &ContainerInfo) -> Seq<char> {
    match spec_rule_opt(c) {
        Option::Some(r) => r,
        Option::None => Seq::empty(),
    }
}

/// An unparsable priority label degrades to absence, never to an error.
pub open spec fn spec_priority(c: &ContainerInfo) -> Option<i32> {
    match lbl(c, "pingap.http.priority"@) {
        Option::Some(v) => parse_i32_spec(v),
        Option::None => Option::None,
    }
}

/// The top-level TLS flag: present iff the label is, true iff it reads
/// exactly `true`.
pub open spec fn spec_tls(c: &ContainerInfo) -> Option<bool> {
    match lbl(c, "pingap.http.tls.enabled"@) {
        Option::Some(v) => Option::Some(v == "true"@),
        Option::None => Option::None,
    }
}

/// A comma-separated label value as its trimmed pieces.
pub open spec fn spec_split_trim(v: Seq<char>) -> Seq<Seq<char>> {
    split_commas(v).map_values(|p: Seq<char>| trim_spec(p))
}

/// The parsed load-balancing weight.  Like the priority label, an
/// unparsable value here degrades silently to absence: this optional hint
/// never makes compilation fail, and a bad weight with no strategy label
/// leaves the whole block absent.
pub open spec fn spec_weight(c: &ContainerInfo) -> Option<u32> {
    match lbl(c, "pingap.upstream.weight"@) {
        Option::Some(v) => parse_u32_spec(v),
        Option::None => Option::None,
    }
}

/// The parsed rate-limit average.  An unparsable value degrades silently
/// to absence, as the weight and priority labels do; these optional hints
/// never make compilation fail.
pub open spec fn spec_ratelimit_average(c: &ContainerInfo) -> Option<u32> {
    match lbl(c, "pingap.middleware.ratelimit.average"@) {
        Option::Some(v) => parse_u32_spec(v),
        Option::None => Option::None,
    }
}

/// The parsed rate-limit burst, degrading silently like the average.
pub open spec fn spec_ratelimit_burst(c: &ContainerInfo) -> Option<u32> {
    match lbl(c, "pingap.middleware.ratelimit.burst"@) {
        Option::Some(v) => parse_u32_spec(v),
        Option::None => Option::None,
    }
}

/// An optional owned string agrees with an optional spec text.
pub open spec fn opt_str_matches(o: Option<String>, s: Option<Seq<char>>) -> bool {
    match (o, s) {
        (Option::Some(a), Option::Some(b)) => a@ == b,
        (Option::None, Option::None) => true,
        _ => false,
    }
}

/// An optional string list agrees with an optional spec text list.
pub open spec fn opt_strs_match(o: Option<Vec<String>>, s: Option<Seq<Seq<char>>>) -> bool {
    match (o, s) {
        (Option::Some(a), Option::Some(b)) => a@.map_values(|x: String| x@) == b,
        (Option::None, Option::None) => true,
        _ => false,
    }
}

/// The load-balancing block: present iff the weight parses or a strategy
/// label is present.
pub open spec fn upstream_cfg_matches(c: &ContainerInfo, u: Option<UpstreamConfig>) -> bool {
    if spec_weight(c) is Some || lbl(c, "pingap.upstream.strategy"@) is Some {
        match u {
            Option::Some(uc) => uc.weight == spec_weight(c) && opt_str_matches(
                uc.strategy,
                lbl(c, "pingap.upstream.strategy"@),
            ),
            Option::None => false,
        }
    } else {
        u is None
    }
}

/// The health-check block: present iff the path label is.
pub open spec fn health_matches(c: &ContainerInfo, h: Option<HealthCheckConfig>) -> bool {
    match lbl(c, "pingap.health_check.path"@) {
        Option::Some(path) => match h {
            Option::Some(hc) => hc.path@ == path && opt_str_matches(
                hc.interval,
                lbl(c, "pingap.health_check.interval"@),
            ) && opt_str_matches(hc.timeout, lbl(c, "pingap.health_check.timeout"@)),
            Option::None => false,
        },
        Option::None => h is None,
    }
}

/// Whether any of the eleven middleware sub-labels would populate a field.
pub open spec fn any_middleware(c: &ContainerInfo) -> bool {
    lbl(c, "pingap.middleware.strip_prefix"@) is Some || lbl(
        c,
        "pingap.middleware.add_prefix"@,
    ) is Some || lbl(c, "pingap.headers.custom_request"@) is Some || lbl(
        c,
        "pingap.headers.custom_response"@,
    ) is Some || lbl(c, "pingap.headers.cors.enable"@) is Some || lbl(
        c,
        "pingap.middleware.compress"@,
    ) is Some || spec_ratelimit_average(c) is Some || spec_ratelimit_burst(c) is Some || lbl(
        c,
        "pingap.middleware.basic_auth"@,
    ) is Some || lbl(c, "pingap.middleware.redirect_scheme"@) is Some || lbl(
        c,
        "pingap.middleware.redirect_regex"@,
    ) is Some
}

pub open spec fn spec_bool_label(c: &ContainerInfo, key: Seq<char>) -> Option<bool> {
    match lbl(c, key) {
        Option::Some(v) => Option::Some(v == "true"@),
        Option::None => Option::None,
    }
}

pub open spec fn spec_split_label(c: &ContainerInfo, key: Seq<char>) -> Option<Seq<Seq<char>>> {
    match lbl(c, key) {
        Option::Some(v) => Option::Some(spec_split_trim(v)),
        Option::None => Option::None,
    }
}

/// The middleware bundle: present iff at least one sub-label is.
pub open spec fn middleware_matches(c: &ContainerInfo, m: Option<MiddlewareConfig>) -> bool {
    if any_middleware(c) {
        match m {
            Option::Some(mw) => opt_str_matches(
                mw.strip_prefix,
                lbl(c, "pingap.middleware.strip_prefix"@),
            ) && opt_str_matches(mw.add_prefix, lbl(c, "pingap.middleware.add_prefix"@))
                && opt_strs_match(
                mw.custom_request_headers,
                spec_split_label(c, "pingap.headers.custom_request"@),
            ) && opt_strs_match(
                mw.custom_response_headers,
                spec_split_label(c, "pingap.headers.custom_response"@),
            ) && mw.cors_enabled == spec_bool_label(c, "pingap.headers.cors.enable"@)
                && mw.compress == spec_bool_label(c, "pingap.middleware.compress"@)
                && mw.ratelimit_average == spec_ratelimit_average(c) && mw.ratelimit_burst
                == spec_ratelimit_burst(c) && opt_str_matches(
                mw.basic_auth,
                lbl(c, "pingap.middleware.basic_auth"@),
            ) && opt_str_matches(
                mw.redirect_scheme,
                lbl(c, "pingap.middleware.redirect_scheme"@),
            ) && opt_str_matches(mw.redirect_regex, lbl(c, "pingap.middleware.redirect_regex"@)),
            Option::None => false,
        }
    } else {
        m is None
    }
}

/// The TLS detail block: present only when the top-level flag is exactly
/// `true`.
pub open spec fn tls_cfg_matches(c: &ContainerInfo, t: Option<TlsConfig>) -> bool {
    if spec_tls(c) == Option::Some(true) {
        match t {
            Option::Some(tc) => tc.enabled && tc.redirect == spec_bool_label(
                c,
                "pingap.tls.redirect"@,
            ) && opt_strs_match(tc.domains, spec_split_label(c, "pingap.tls.domains"@)),
            Option::None => false,
        }
    } else {
        t is None
    }
}

/// Which check an enabled container fails first, if any, in resolution
/// order: network selection, IP fallback, explicit port, port fallback,
/// routing rule.  An address override bypasses the first four.
#[derive(Debug, Clone, Copy, PartialEq, Eq, Structural)]
pub enum CompileFailure {
    UnknownNetwork,
    NoIp,
    BadPort,
    NoPorts,
    NoRule,
}

/// The first failing address-resolution check, if any; an address override
/// bypasses them all.
pub open spec fn addr_failure(c: &ContainerInfo) -> Option<CompileFailure> {
    let overridden = lbl(c, "pingap.service.address"@) is Some;
    if !overridden && lbl(c, "pingap.docker.network"@) is Some && spec_ip(c) is None {
        Option::Some(CompileFailure::UnknownNetwork)
    } else if !overridden && lbl(c, "pingap.docker.network"@) is None && spec_ip(c) is None {
        Option::Some(CompileFailure::NoIp)
    } else if !overridden && lbl(c, "pingap.service.port"@) is Some && parse_u16_of(c) is None {
        Option::Some(CompileFailure::BadPort)
    } else if !overridden && lbl(c, "pingap.service.port"@) is None && c.ports@.len() == 0 {
        Option::Some(CompileFailure::NoPorts)
    } else {
        Option::None
    }
}

pub open spec fn spec_failure(c: &ContainerInfo) -> Option<CompileFailure> {
    match addr_failure(c) {
        Option::Some(f) => Option::Some(f),
        Option::None => if spec_rule_opt(c) is None {
            Option::Some(CompileFailure::NoRule)
        } else {
            Option::None
        },
    }
}

pub open spec fn parse_u16_of(c: &ContainerInfo) -> Option<u16> {
    match lbl(c, "pingap.service.port"@) {
        Option::Some(v) => parse_u16_spec(v),
        Option::None => Option::None,
    }
}

/// The whole location block agrees with the labels.
pub open spec fn location_matches(c: &ContainerInfo, l: PingapLocation) -> bool {
    l.rule@ == spec_rule(c) && l.priority == spec_priority(c) && opt_strs_match(
        l.middlewares,
        spec_split_label(c, "pingap.http.middlewares"@),
    ) && l.tls == spec_tls(c)
}

/// The whole compiled configuration agrees with the labels.
pub open spec fn config_matches(c: &ContainerInfo, cfg: PingapServiceConfig) -> bool {
    cfg.name@ == spec_service_name(c) && cfg.upstreams@.len() == 1 && cfg.upstreams@[0]@
        == spec_address(c) && location_matches(c, cfg.location) && upstream_cfg_matches(
        c,
        cfg.upstream_config,
    ) && health_matches(c, cfg.health_check) && middleware_matches(c, cfg.middleware_config)
        && tls_cfg_matches(c, cfg.tls_config)
}

/// The returned error is the one the failed check owes, with the container,
/// the offending label value and the available networks filled in.
pub open spec fn failure_matches(c: &ContainerInfo, e: CompileError) -> bool {
    match e {
        CompileError::UnknownNetwork { container, network, available } => spec_failure(c)
            == Option::Some(CompileFailure::UnknownNetwork) && container@ == c.name@
            && Option::Some(network@) == lbl(c, "pingap.docker.network"@) && available@.map_values(
            |n: String| n@,
        ) == c.networks@.map_values(|p: (String, String)| p.0@),
        CompileError::NoIpAddress { container } => spec_failure(c) == Option::Some(
            CompileFailure::NoIp,
        ) && container@ == c.name@,
        CompileError::InvalidPort { container, value } => spec_failure(c) == Option::Some(
            CompileFailure::BadPort,
        ) && container@ == c.name@ && Option::Some(value@) == lbl(c, "pingap.service.port"@),
        CompileError::NoExposedPorts { container } => spec_failure(c) == Option::Some(
            CompileFailure::NoPorts,
        ) && container@ == c.name@,
        CompileError::NoRoutingRule { container } => spec_failure(c) == Option::Some(
            CompileFailure::NoRule,
        ) && container@ == c.name@,
    }
}

/// The network names of the per-network mapping, in enumeration order.
fn network_names(networks: &Vec<(String, String)>) -> (r: Vec<String>)
    ensures
        r@.map_values(|n: String| n@) == networks@.map_values(|p: (String, String)| p.0@),
{
    let mut out: Vec<String> = Vec::new();
    let mut i: usize = 0;
    proof {
        let f = |n: String| n@;
        let g = |p: (String, String)| p.0@;
        assert(out@.map_values(f) =~= networks@.take(0).map_values(g));
    }
    while i < networks.len()
        invariant
            i <= networks@.len(),
            out@.map_values(|n: String| n@) == networks@.take(i as int).map_values(
                |p: (String, String)| p.0@,
            ),
        decreases networks@.len() - i,
    {
        let name = networks[i].0.clone();
        proof {
            let f = |n: String| n@;
            let g = |p: (String, String)| p.0@;
            assert(out@.push(name).map_values(f) =~= out@.map_values(f).push(name@));
            assert(networks@.take(i + 1).map_values(g) =~= networks@.take(i as int).map_values(
                g,
            ).push(networks@[i as int].0@));
        }
        out.push(name);
        i += 1;
    }
    proof {
        assert(networks@.take(networks@.len() as int) =~= networks@);
    }
    out
}

/// Resolves the single upstream address: the override label outright, else
/// the selected IP and port joined as `ip:port`.
fn resolve_address(c: &ContainerInfo) -> (r: Result<String, CompileError>)
    ensures
        match r {
            Result::Ok(a) => addr_failure(c) is None && a@ == spec_address(c),
            Result::Err(e) => addr_failure(c) is Some && failure_matches(c, e),
        },
{
    if let Some(a) = assoc_get(&c.labels, "pingap.service.address") {
        return Ok(a.clone());
    }
    let ip: String = match assoc_get(&c.labels, "pingap.docker.network") {
        Some(net) => match assoc_get(&c.networks, net.as_str()) {
            Some(ipv) => ipv.clone(),
            None => {
                return Err(
                    CompileError::UnknownNetwork {
                        container: c.name.clone(),
                        network: net.clone(),
                        available: network_names(&c.networks),
                    },
                );
            },
        },
        None => match &c.ip_address {
            Some(ipv) => ipv.clone(),
            None => {
                if c.networks.len() > 0 {
                    c.networks[0].1.clone()
                } else {
                    return Err(CompileError::NoIpAddress { container: c.name.clone() });
                }
            },
        },
    };
    let port: u16 = match assoc_get(&c.labels, "pingap.service.port") {
        Some(v) => match crate::text::parse_u16(v.as_str()) {
            Some(p) => p,
            None => {
                return Err(
                    CompileError::InvalidPort { container: c.name.clone(), value: v.clone() },
                );
            },
        },
        None => {
            if c.ports.len() == 0 {
                return Err(CompileError::NoExposedPorts { container: c.name.clone() });
            }
            c.ports[0]
        },
    };
    let mut addr = ip;
    addr.append(":");
    let port_text = crate::text::u16_to_string(port);
    addr.append(port_text.as_str());
    proof {
        assert(addr@ =~= spec_address(c));
    }
    Ok(addr)
}

/// Builds the OR-joined path predicates of a comma-separated path list.
fn build_paths_rule(p: &str) -> (r: String)
    ensures
        r@ == paths_rule(p@),
{
    let pieces = crate::text::split_commas_exec(p);
    let mut wrapped: Vec<String> = Vec::new();
    let mut i: usize = 0;
    proof {
        let f = |s: String| s@;
        let g = |x: Seq<char>| path_piece(x);
        assert(wrapped@.map_values(f) =~= split_commas(p@).take(0).map_values(g));
    }
    while i < pieces.len()
        invariant
            i <= pieces@.len(),
            pieces@.map_values(|s: String| s@) == split_commas(p@),
            wrapped@.map_values(|s: String| s@) == split_commas(p@).take(i as int).map_values(
                |x: Seq<char>| path_piece(x),
            ),
        decreases pieces@.len() - i,
    {
        let t = crate::text::trim(pieces[i].as_str());
        let mut w = String::from_str("PathPrefix(`");
        w.append(t.as_str());
        w.append("`)");
        proof {
            let f = |s: String| s@;
            let g = |x: Seq<char>| path_piece(x);
            assert(pieces@.map_values(f)[i as int] == pieces@[i as int]@);
            assert(w@ =~= path_piece(split_commas(p@)[i as int]));
            assert(wrapped@.push(w).map_values(f) =~= wrapped@.map_values(f).push(w@));
            assert(split_commas(p@).take(i + 1).map_values(g) =~= split_commas(p@).take(
                i as int,
            ).map_values(g).push(g(split_commas(p@)[i as int])));
        }
        wrapped.push(w);
        i += 1;
    }
    proof {
        assert(split_commas(p@).take(pieces@.len() as int) =~= split_commas(p@));
    }
    crate::text::join_with(&wrapped, " || ")
}

/// Resolves the routing rule: the explicit label verbatim, else the host
/// and path aliases composed, else the owed error naming the label options.
fn build_rule(c: &ContainerInfo) -> (r: Result<String, CompileError>)
    ensures
        match r {
            Result::Ok(rl) => spec_rule_opt(c) == Option::Some(rl@),
            Result::Err(e) => spec_rule_opt(c) is None && (e matches CompileError::NoRoutingRule {
                container,
            } && container@ == c.name@),
        },
{
    if let Some(rl) = assoc_get(&c.labels, "pingap.http.rule") {
        return Ok(rl.clone());
    }
    let host = assoc_get(&c.labels, "pingap.http.host");
    let paths = assoc_get(&c.labels, "pingap.http.paths");
    match (host, paths) {
        (Some(h), Some(p)) => {
            let mut out = String::from_str("Host(`");
            out.append(h.as_str());
            out.append("`)");
            out.append(" && (");
            let pr = build_paths_rule(p.as_str());
            out.append(pr.as_str());
            out.append(")");
            proof {
                assert(out@ =~= host_rule(h@) + " && ("@ + paths_rule(p@) + ")"@);
            }
            Ok(out)
        },
        (Some(h), None) => {
            let mut out = String::from_str("Host(`");
            out.append(h.as_str());
            out.append("`)");
            proof {
                assert(out@ =~= host_rule(h@));
            }
            Ok(out)
        },
        (None, Some(p)) => Ok(build_paths_rule(p.as_str())),
        (None, None) => Err(CompileError::NoRoutingRule { container: c.name.clone() }),
    }
}

/// Clones the label value under `key`, if present.
fn opt_label_clone(c: &ContainerInfo, key: &str) -> (r: Option<String>)
    ensures
        opt_str_matches(r, label_of(c.labels@, key@)),
{
    match assoc_get(&c.labels, key) {
        Some(v) => Some(v.clone()),
        None => None,
    }
}

/// Reads a boolean label: present iff the label is, true iff it reads
/// exactly `true`.
fn opt_bool_label(c: &ContainerInfo, key: &str) -> (r: Option<bool>)
    ensures
        r == spec_bool_label(c, key@),
{
    match assoc_get(&c.labels, key) {
        Some(v) => Some(crate::text::str_eq(v.as_str(), "true")),
        None => None,
    }
}

/// Reads a comma-separated label as its trimmed pieces, if present.
fn opt_split_label(c: &ContainerInfo, key: &str) -> (r: Option<Vec<String>>)
    ensures
        opt_strs_match(r, spec_split_label(c, key@)),
{
    match assoc_get(&c.labels, key) {
        Some(v) => Some(crate::text::split_commas_trimmed(v.as_str())),
        None => None,
    }
}

/// Reads an unsigned-integer label, an unparsable value degrading to
/// absence.
fn opt_u32_label(c: &ContainerInfo, key: &str) -> (r: Option<u32>)
    ensures
        r == match label_of(c.labels@, key@) {
            Option::Some(v) => parse_u32_spec(v),
            Option::None => Option::None::<u32>,
        },
{
    match assoc_get(&c.labels, key) {
        Some(v) => crate::text::parse_u32(v.as_str()),
        None => None,
    }
}

/// The load-balancing block, present only if a constituent label is.
fn build_upstream_config(c: &ContainerInfo) -> (r: Option<UpstreamConfig>)
    ensures
        upstream_cfg_matches(c, r),
{
    let weight = opt_u32_label(c, "pingap.upstream.weight");
    let strategy = opt_label_clone(c, "pingap.upstream.strategy");
    if weight.is_some() || strategy.is_some() {
        Some(UpstreamConfig { weight, strategy })
    } else {
        None
    }
}

/// The health-check block, present only if the path label is.
fn build_health_check(c: &ContainerInfo) -> (r: Option<HealthCheckConfig>)
    ensures
        health_matches(c, r),
{
    match assoc_get(&c.labels, "pingap.health_check.path") {
        Some(path) => Some(
            HealthCheckConfig {
                path: path.clone(),
                interval: opt_label_clone(c, "pingap.health_check.interval"),
                timeout: opt_label_clone(c, "pingap.health_check.timeout"),
            },
        ),
        None => None,
    }
}

/// The middleware bundle, present only if a constituent label is.
fn build_middleware(c: &ContainerInfo) -> (r: Option<MiddlewareConfig>)
    ensures
        middleware_matches(c, r),
{
    let strip_prefix = opt_label_clone(c, "pingap.middleware.strip_prefix");
    let add_prefix = opt_label_clone(c, "pingap.middleware.add_prefix");
    let custom_request_headers = opt_split_label(c, "pingap.headers.custom_request");
    let custom_response_headers = opt_split_label(c, "pingap.headers.custom_response");
    let cors_enabled = opt_bool_label(c, "pingap.headers.cors.enable");
    let compress = opt_bool_label(c, "pingap.middleware.compress");
    let ratelimit_average = opt_u32_label(c, "pingap.middleware.ratelimit.average");
    let ratelimit_burst = opt_u32_label(c, "pingap.middleware.ratelimit.burst");
    let basic_auth = opt_label_clone(c, "pingap.middleware.basic_auth");
    let redirect_scheme = opt_label_clone(c, "pingap.middleware.redirect_scheme");
    let redirect_regex = opt_label_clone(c, "pingap.middleware.redirect_regex");
    if strip_prefix.is_some() || add_prefix.is_some() || custom_request_headers.is_some()
        || custom_response_headers.is_some() || cors_enabled.is_some() || compress.is_some()
        || ratelimit_average.is_some() || ratelimit_burst.is_some() || basic_auth.is_some()
        || redirect_scheme.is_some() || redirect_regex.is_some() {
        Some(
            MiddlewareConfig {
                strip_prefix,
                add_prefix,
                custom_request_headers,
                custom_response_headers,
                cors_enabled,
                compress,
                ratelimit_average,
                ratelimit_burst,
                basic_auth,
                redirect_scheme,
                redirect_regex,
            },
        )
    } else {
        None
    }
}

/// The TLS detail block, present only when the top-level flag is exactly
/// `true`.
fn build_tls_config(c: &ContainerInfo) -> (r: Option<TlsConfig>)
    ensures
        tls_cfg_matches(c, r),
{
    match opt_bool_label(c, "pingap.http.tls.enabled") {
        Some(b) => {
            if b {
                Some(
                    TlsConfig {
                        enabled: true,
                        redirect: opt_bool_label(c, "pingap.tls.redirect"),
                        domains: opt_split_label(c, "pingap.tls.domains"),
                    },
                )
            } else {
                None
            }
        },
        None => None,
    }
}

impl ContainerInfo {
    /// Compiles the snapshot's labels into a service configuration.
    ///
    /// Returns `Ok(None)` exactly when the container is not opted in;
    /// `Ok(Some(..))` with every field agreeing with the labels when each
    /// resolution step succeeds; and the specific owed error otherwise.  An
    /// address override always wins over IP/port resolution, even where
    /// those would fail.
    pub fn parse_pingap_config(&self) -> (r: Result<Option<PingapServiceConfig>, CompileError>)
        ensures
            match r {
                Result::Ok(opt) => match opt {
                    Option::None => !spec_enabled(self),
                    Option::Some(cfg) => spec_enabled(self) && spec_failure(self) is None
                        && config_matches(self, cfg),
                },
                Result::Err(e) => spec_enabled(self) && spec_failure(self) is Some
                    && failure_matches(self, e),
            },
    {
        let enabled = match assoc_get(&self.labels, "pingap.enable") {
            Some(v) => crate::text::str_eq(v.as_str(), "true"),
            None => false,
        };
        if !enabled {
            return Ok(None);
        }
        let name = match assoc_get(&self.labels, "pingap.service.name") {
            Some(v) => v.clone(),
            None => crate::text::strip_leading_char(self.name.as_str(), '/'),
        };
        let address = match resolve_address(self) {
            Ok(a) => a,
            Err(e) => {
                return Err(e);
            },
        };
        let rule = match build_rule(self) {
            Ok(rl) => rl,
            Err(e) => {
                return Err(e);
            },
        };
        let priority = match assoc_get(&self.labels, "pingap.http.priority") {
            Some(v) => crate::text::parse_i32(v.as_str()),
            None => None,
        };
        let middlewares = opt_split_label(self, "pingap.http.middlewares");
        let tls = opt_bool_label(self, "pingap.http.tls.enabled");
        let upstream_config = build_upstream_config(self);
        let health_check = build_health_check(self);
        let middleware_config = build_middleware(self);
        let tls_config = build_tls_config(self);
        let mut upstreams: Vec<String> = Vec::new();
        upstreams.push(address);
        Ok(
            Some(
                PingapServiceConfig {
                    name,
                    upstreams,
                    location: PingapLocation { rule, priority, middlewares, tls },
                    upstream_config,
                    health_check,
                    middleware_config,
                    tls_config,
                },
            ),
        )
    }
}

} // verus!
