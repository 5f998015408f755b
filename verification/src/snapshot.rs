//! The compute side of turning raw runtime data into a container
//! snapshot: picking the display name, keeping only networks that report
//! an IP, choosing the primary IP, and reading an exposed-port key.
//!
//! The runtime connection itself and its wire types stay outside the
//! library; these functions take the plain values extracted from them.

use vstd::prelude::*;
use vstd::string::StringExecFns;
use vstd::string::StrSliceExecFns;
use crate::text::{first_occurrence, parse_u16_spec};

verus! {

/// The first reported name, or `unknown` when the runtime reports none.
pub fn display_name(names: &Vec<String>) -> (r: String)
    ensures
        r@ == if names@.len() > 0 {
            names@[0]@
        } else {
            "unknown"@
        },
{
    if names.len() > 0 {
        names[0].clone()
    } else {
        String::from_str("unknown")
    }
}

/// The network entries that report a non-empty IP, in enumeration order.
pub open spec fn nonempty_networks(s: Seq<(String, String)>) -> Seq<(String, String)>
    decreases s.len(),
{
    if s.len() == 0 {
        Seq::empty()
    } else {
        let rest = nonempty_networks(s.drop_last());
        if s.last().1@.len() > 0 {
            rest.push(s.last())
        } else {
            rest
        }
    }
}

/// The primary IP: the first non-empty one in enumeration order.
pub open spec fn first_network_ip(s: Seq<(String, String)>) -> Option<Seq<char>> {
    if nonempty_networks(s).len() > 0 {
        Option::Some(nonempty_networks(s)[0].1@)
    } else {
        Option::None
    }
}

/// Keeps only the networks that report an IP and picks the first such IP
/// as the primary address.
pub fn collect_network_ips(raw: &Vec<(String, String)>) -> (r: (
    Vec<(String, String)>,
    Option<String>,
))
    ensures
        r.0@ == nonempty_networks(raw@),
        crate::compile::opt_str_matches(r.1, first_network_ip(raw@)),
{
    let mut networks: Vec<(String, String)> = Vec::new();
    let mut primary: Option<String> = None;
    let mut i: usize = 0;
    proof {
        assert(nonempty_networks(raw@.take(0)) =~= Seq::<(String, String)>::empty());
    }
    while i < raw.len()
        invariant
            i <= raw@.len(),
            networks@ == nonempty_networks(raw@.take(i as int)),
            crate::compile::opt_str_matches(primary, first_network_ip(raw@.take(i as int))),
        decreases raw@.len() - i,
    {
        proof {
            assert(raw@.take(i + 1).drop_last() =~= raw@.take(i as int));
            assert(raw@.take(i + 1).last() == raw@[i as int]);
        }
        if raw[i].1.unicode_len() > 0 {
            let entry = (raw[i].0.clone(), raw[i].1.clone());
            if networks.len() == 0 {
                primary = Some(raw[i].1.clone());
            }
            proof {
                assert(networks@.push(entry) =~= nonempty_networks(raw@.take(i + 1)));
            }
            networks.push(entry);
        }
        i += 1;
    }
    proof {
        assert(raw@.take(raw@.len() as int) =~= raw@);
    }
    (networks, primary)
}

/// The port an exposed-port key like `80/tcp` denotes: the text before the
/// first slash, read as an unsigned 16-bit integer.
pub open spec fn spec_exposed_port(k: Seq<char>) -> Option<u16> {
    parse_u16_spec(k.take(first_occurrence(k, '/') as int))
}

/// Reads the port from an exposed-port key like `80/tcp`.
pub fn parse_exposed_port(key: &str) -> (r: Option<u16>)
    ensures
        r == spec_exposed_port(key@),
{
    let n = key.unicode_len();
    let mut i: usize = 0;
    while i < n && key.get_char(i) != '/'
        invariant
            n == key@.len(),
            i <= n,
            forall|k: int| 0 <= k < i ==> key@[k] != '/',
        decreases n - i,
    {
        i += 1;
    }
    proof {
        crate::text::lemma_first_occurrence_at(key@, '/', i as int);
        assert(key@.subrange(0, i as int) =~= key@.take(i as int));
    }
    crate::text::parse_u16(key.substring_char(0, i))
}

} // verus!
