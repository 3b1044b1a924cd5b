//! Tor proxy configuration and circuit bookkeeping.
//!
//! Circuits are mock circuits with synthetic relay names: this module keeps
//! the proxy settings and which circuit is in use.

use vstd::prelude::*;
use crate::text::{owned, concat2, push_decimal, push_str, decimal, str_eq};

verus! {

/// Configuration for Tor proxy connectivity.
#[derive(Debug, Clone)]
pub struct TorConfig {
    pub enabled: bool,
    /// SOCKS5 proxy port.
    pub socks_port: u16,
    /// Tor control port.
    pub control_port: u16,
    pub bridge_mode: bool,
    pub bridges: Vec<String>,
    /// Allowed exit-node country codes.
    pub exit_nodes: Option<Vec<String>>,
    pub dns_over_https: bool,
    /// DoH resolver URL.
    pub doh_resolver: String,
}

impl Default for TorConfig {
    fn default() -> (r: Self)
        ensures
            !r.enabled,
            r.socks_port == 9050,
            r.control_port == 9051,
            !r.bridge_mode,
            r.bridges@.len() == 0,
            r.exit_nodes is None,
            r.dns_over_https,
            r.doh_resolver@ == "https://cloudflare-dns.com/dns-query"@,
    {
        TorConfig {
            enabled: false,
            socks_port: 9050,
            control_port: 9051,
            bridge_mode: false,
            bridges: Vec::new(),
            exit_nodes: None,
            dns_over_https: true,
            doh_resolver: owned("https://cloudflare-dns.com/dns-query"),
        }
    }
}

/// A Tor circuit (entry, middle and exit relay). `created_at` is in
/// milliseconds since the Unix epoch.
#[derive(Debug, Clone)]
pub struct TorCircuit {
    pub id: String,
    pub entry_node: String,
    pub middle_node: String,
    pub exit_node: String,
    pub exit_country: Option<String>,
    pub created_at: i64,
    pub is_active: bool,
}

/// Manages the Tor proxy configuration and circuit lifecycle.
pub struct TorProxy {
    pub config: TorConfig,
    /// All circuits of this session, oldest first.
    pub circuits: Vec<TorCircuit>,
    /// ID of the circuit in use.
    pub active_circuit: Option<String>,
}

/// `uuid::Uuid::new_v4().to_string()`: a random version-4 UUID in
/// hyphenated form, 36 characters. Its value is random.
#[verifier::external_body]
pub(crate) fn new_uuid_string() -> (r: String)
    ensures
        r@.len() == 36,
{
    uuid::Uuid::new_v4().to_string()
}

/// The SOCKS5 URL of a local proxy on `port`.
pub open spec fn proxy_url_spec(port: u16) -> Seq<char> {
    "socks5://127.0.0.1:"@ + decimal(port as nat)
}

/// Every active circuit is the one recorded as in use.
pub open spec fn active_consistent(circuits: Seq<TorCircuit>, active: Option<String>) -> bool {
    forall|i: int| 0 <= i < circuits.len() && #[trigger] circuits[i].is_active ==> active == Some(
        circuits[i].id,
    )
}

/// `c` after deactivation of the circuit recorded as in use, `active`.
pub open spec fn after_deactivation(c: TorCircuit, active: Option<String>) -> TorCircuit {
    TorCircuit {
        is_active: c.is_active && !(active is Some && active->0@ == c.id@),
        ..c
    }
}

/// Index of the first circuit that has ID `id` and is active.
pub open spec fn active_index(circuits: Seq<TorCircuit>, id: Seq<char>) -> Option<int>
    decreases circuits.len(),
{
    if circuits.len() == 0 {
        None
    } else {
        match active_index(circuits.drop_last(), id) {
            Some(i) => Some(i),
            None => if circuits.last().id@ == id && circuits.last().is_active {
                Some(circuits.len() - 1)
            } else {
                None
            },
        }
    }
}

/// `reqwest` accepts `url` as a proxy URL exactly when this is `None`;
/// otherwise it is the text of the error, a function of `url` alone.
pub uninterp spec fn proxy_error(url: Seq<char>) -> Option<Seq<char>>;

/// External declaration of `reqwest::Proxy`, carried opaquely.
#[verifier::external_type_specification]
#[verifier::external_body]
pub struct ExProxy(reqwest::Proxy);

/// `reqwest::Proxy::all(url)`: a proxy for all traffic, or the text of the
/// error when `url` is not an acceptable proxy URL.
#[verifier::external_body]
fn proxy_for_all(url: &str) -> (r: Result<reqwest::Proxy, String>)
    ensures
        r is Ok <==> proxy_error(url@) is None,
        r matches Err(e) ==> proxy_error(url@) == Some(e@),
{
    reqwest::Proxy::all(url).map_err(|e| format!("{}", e))
}

impl TorProxy {
    /// A proxy manager with no circuits.
    pub fn new(config: TorConfig) -> (r: Self)
        ensures
            r.config == config,
            r.circuits@.len() == 0,
            r.active_circuit is None,
    {
        TorProxy { config, circuits: Vec::new(), active_circuit: None }
    }

    /// The SOCKS5 proxy URL, `socks5://127.0.0.1:<socks_port>`.
    pub fn proxy_url(&self) -> (r: String)
        ensures
            r@ == proxy_url_spec(self.config.socks_port),
    {
        let mut s = owned("socks5://127.0.0.1:");
        push_decimal(&mut s, self.config.socks_port as u64);
        s
    }

    /// Whether Tor routing is enabled.
    pub fn is_enabled(&self) -> (b: bool)
        ensures
            b == self.config.enabled,
    {
        self.config.enabled
    }

    /// Create a new mock circuit and make it the one in use: the previous
    /// circuit is deactivated, the new one gets a fresh random ID, synthetic
    /// relay names, and the first configured exit country.
    pub fn new_circuit(&mut self) -> (c: TorCircuit)
        ensures
            final(self).config == old(self).config,
            final(self).circuits@.len() == old(self).circuits@.len() + 1,
            forall|j: int|
                0 <= j < old(self).circuits@.len() ==> #[trigger] final(self).circuits@[j]
                    == after_deactivation(old(self).circuits@[j], old(self).active_circuit),
            final(self).circuits@.last() == c,
            final(self).active_circuit == Some(c.id),
            c.id@.len() == 36,
            c.entry_node@ == "mock-guard-relay.example.onion"@,
            c.middle_node@ == "mock-middle-relay.example.onion"@,
            c.exit_node@ == "mock-exit-relay.example.onion"@,
            c.exit_country == match old(self).config.exit_nodes {
                Some(nodes) => if nodes@.len() > 0 {
                    Some(nodes@[0])
                } else {
                    None::<String>
                },
                None => None::<String>,
            },
            c.is_active,
    {
        let ghost old_cs = self.circuits@;
        let ghost old_active = self.active_circuit;
        let mut i: usize = 0;
        while i < self.circuits.len()
            invariant
                i <= self.circuits.len(),
                self.circuits@.len() == old_cs.len(),
                self.active_circuit == old_active,
                self.config == old(self).config,
                old_cs == old(self).circuits@,
                old_active == old(self).active_circuit,
                forall|j: int| 0 <= j < i ==> #[trigger] self.circuits@[j] == after_deactivation(old_cs[j], old_active),
                forall|j: int| i <= j < old_cs.len() ==> #[trigger] self.circuits@[j] == old_cs[j],
            decreases self.circuits.len() - i,
        {
            let deactivate = match &self.active_circuit {
                Some(a) => str_eq(self.circuits[i].id.as_str(), a.as_str()),
                None => false,
            };
            if deactivate && self.circuits[i].is_active {
                let c = TorCircuit {
                    id: self.circuits[i].id.clone(),
                    entry_node: self.circuits[i].entry_node.clone(),
                    middle_node: self.circuits[i].middle_node.clone(),
                    exit_node: self.circuits[i].exit_node.clone(),
                    exit_country: self.circuits[i].exit_country.clone(),
                    created_at: self.circuits[i].created_at,
                    is_active: false,
                };
                self.circuits.set(i, c);
            }
            i += 1;
        }
        let id = new_uuid_string();
        let exit_country = match &self.config.exit_nodes {
            Some(nodes) => if nodes.len() > 0 {
                Some(nodes[0].clone())
            } else {
                None
            },
            None => None,
        };
        let created_at = crate::telemetry::now_unix_millis();
        let kept = TorCircuit {
            id: id.clone(),
            entry_node: owned("mock-guard-relay.example.onion"),
            middle_node: owned("mock-middle-relay.example.onion"),
            exit_node: owned("mock-exit-relay.example.onion"),
            exit_country: exit_country.clone(),
            created_at,
            is_active: true,
        };
        let returned = TorCircuit {
            id: kept.id.clone(),
            entry_node: kept.entry_node.clone(),
            middle_node: kept.middle_node.clone(),
            exit_node: kept.exit_node.clone(),
            exit_country,
            created_at,
            is_active: true,
        };
        self.active_circuit = Some(id);
        self.circuits.push(kept);
        returned
    }

    /// The circuit in use, if it is still active.
    pub fn active_circuit(&self) -> (r: Option<&TorCircuit>)
        ensures
            match self.active_circuit {
                None => r is None,
                Some(a) => match active_index(self.circuits@, a@) {
                    Some(i) => r is Some && *r->0 === self.circuits@[i],
                    None => r is None,
                },
            },
    {
        match &self.active_circuit {
            None => None,
            Some(a) => {
                assert(self.active_circuit->0 == *a);
                let mut i: usize = 0;
                let ghost cs = self.circuits@;
                assert(cs.take(0) =~= Seq::<TorCircuit>::empty());
                while i < self.circuits.len()
                    invariant
                        i <= self.circuits.len(),
                        cs == self.circuits@,
                        self.active_circuit is Some,
                        self.active_circuit->0@ == a@,
                        active_index(cs.take(i as int), a@) is None,
                    decreases self.circuits.len() - i,
                {
                    assert(cs.take(i + 1).drop_last() =~= cs.take(i as int));
                    assert(cs.take(i + 1).last() == cs[i as int]);
                    if self.circuits[i].is_active && str_eq(self.circuits[i].id.as_str(), a.as_str()) {
                        proof { lemma_active_index_prefix(cs, a@, i as int + 1, i as int); }
                        let c = &self.circuits[i];

                        return Some(c);
                    }
                    i += 1;
                }
                assert(cs.take(i as int) =~= cs);
                None
            },
        }
    }

    /// Chrome launch arguments that route traffic through this proxy.
    pub fn chrome_args(&self) -> (r: Vec<String>)
        ensures
            r@.len() == 3,
            r@[0]@ == "--proxy-server="@ + proxy_url_spec(self.config.socks_port),
            r@[1]@ == "--host-resolver-rules=MAP * ~NOTFOUND , EXCLUDE 127.0.0.1"@,
            r@[2]@ == "--no-proxy-server-for-local-network"@,
    {
        let proxy = self.proxy_url();
        let a0 = concat2("--proxy-server=", proxy.as_str());
        let a1 = owned("--host-resolver-rules=MAP * ~NOTFOUND , EXCLUDE 127.0.0.1");
        let a2 = owned("--no-proxy-server-for-local-network");
        vec![a0, a1, a2]
    }

    /// A `reqwest` proxy routing all traffic through this proxy, or a
    /// message naming the URL and the error.
    pub fn reqwest_proxy(&self) -> (r: Result<reqwest::Proxy, String>)
        ensures
            r is Ok <==> proxy_error(proxy_url_spec(self.config.socks_port)) is None,
            r matches Err(m) ==> m@ == "Failed to create reqwest proxy for "@ + proxy_url_spec(
                self.config.socks_port,
            ) + ": "@ + proxy_error(proxy_url_spec(self.config.socks_port))->0,
    {
        let url = self.proxy_url();
        match proxy_for_all(url.as_str()) {
            Ok(p) => Ok(p),
            Err(e) => {
                let mut m = concat2("Failed to create reqwest proxy for ", url.as_str());
                push_str(&mut m, ": ");
                push_str(&mut m, e.as_str());
                Err(m)
            },
        }
    }
}

proof fn lemma_active_index_prefix(cs: Seq<TorCircuit>, id: Seq<char>, n: int, i: int)
    requires
        0 < n <= cs.len(),
        active_index(cs.take(n), id) == Some(i),
    ensures
        active_index(cs, id) == Some(i),
    decreases cs.len() - n,
{
    if n < cs.len() {
        assert(cs.take(n + 1).drop_last() =~= cs.take(n));
        lemma_active_index_prefix(cs, id, n + 1, i);
    } else {
        assert(cs.take(n) =~= cs);
    }
}

/// A new circuit leaves exactly one circuit in use: if every active circuit
/// was the recorded one before, then afterwards every active circuit is the
/// new one, and the lookup of the circuit in use finds the new circuit.
pub proof fn lemma_new_circuit_single_active(
    before: Seq<TorCircuit>,
    active: Option<String>,
    after: Seq<TorCircuit>,
    c: TorCircuit,
)
    requires
        active_consistent(before, active),
        after.len() == before.len() + 1,
        forall|j: int| 0 <= j < before.len() ==> #[trigger] after[j] == after_deactivation(before[j], active),
        after.last() == c,
        c.is_active,
    ensures
        active_consistent(after, Some(c.id)),
        active_index(after, c.id@) == Some(before.len() as int),
{
    assert forall|i: int| 0 <= i < after.len() && #[trigger] after[i].is_active implies Some(c.id) == Some(after[i].id) by {
        if i < before.len() {
            assert(after[i] == after_deactivation(before[i], active));
            assert(before[i].is_active);
            assert(active == Some(before[i].id));
        }
    }
    assert(active_index(after.drop_last(), c.id@) is None) by {
        lemma_no_active_index(after.drop_last(), c.id@);
    }
}

proof fn lemma_no_active_index(cs: Seq<TorCircuit>, id: Seq<char>)
    requires
        forall|i: int| 0 <= i < cs.len() && #[trigger] cs[i].is_active ==> cs[i].id@ != id,
    ensures
        active_index(cs, id) is None,
    decreases cs.len(),
{
    if cs.len() > 0 {
        assert(cs.last() == cs[cs.len() - 1]);
        lemma_no_active_index(cs.drop_last(), id);
    }
}

/// Resolves DNS queries over HTTPS.
pub struct DnsOverHttps {
    /// The DoH resolver endpoint URL.
    pub resolver_url: String,
}

impl DnsOverHttps {
    /// A resolver for the endpoint `url`.
    pub fn new(url: &str) -> (r: Self)
        ensures
            r.resolver_url@ == url@,
    {
        DnsOverHttps { resolver_url: owned(url) }
    }

    /// The query for the A records of `domain` at the resolver `resolver_url`
    /// (the `application/dns-json` API).
    pub fn query_url(domain: &str, resolver_url: &str) -> (r: String)
        ensures
            r@ == resolver_url@ + "?name="@ + domain@ + "&type=A"@,
    {
        let mut s = owned(resolver_url);
        push_str(&mut s, "?name=");
        push_str(&mut s, domain);
        push_str(&mut s, "&type=A");
        s
    }

    /// The addresses among the answers of a resolver, each given by its
    /// record type and data where present: the data of the A records
    /// (type 1), in order.
    pub fn a_records(answers: &Vec<(Option<u64>, Option<String>)>) -> (r: Vec<String>)
        ensures
            crate::text::views(r@) == a_record_data(answers@),
    {
        let mut out: Vec<String> = Vec::new();
        let mut i: usize = 0;
        while i < answers.len()
            invariant
                i <= answers.len(),
                crate::text::views(out@) == a_record_data(answers@.take(i as int)),
            decreases answers.len() - i,
        {
            proof {
                assert(answers@.take(i as int + 1).drop_last() == answers@.take(i as int));
                assert(answers@.take(i as int + 1).last() == answers@[i as int]);
            }
            match (&answers[i].0, &answers[i].1) {
                (Some(t), Some(d)) => if *t == 1 {
                    out.push(d.clone());
                    assert(crate::text::views(out@) == crate::text::views(out@.drop_last()).push(d@));
                },
                _ => {},
            }
            i += 1;
        }
        assert(answers@.take(answers.len() as int) == answers@);
        out
    }
}

/// The data of the A records (type 1) among `answers`, in order.
pub open spec fn a_record_data(answers: Seq<(Option<u64>, Option<String>)>) -> Seq<Seq<char>>
    decreases answers.len(),
{
    if answers.len() == 0 {
        Seq::empty()
    } else {
        let prev = a_record_data(answers.drop_last());
        match answers.last() {
            (Some(t), Some(d)) => if t == 1 { prev.push(d@) } else { prev },
            _ => prev,
        }
    }
}

} // verus!
