//! The configuration a server is started with, and the table of services it
//! is built into.

use vstd::prelude::*;
use crate::protocol::{digest_eq, service_digest, sha256, Digest};

verus! {

/// One exposed service.
#[derive(Debug, PartialEq, Eq)]
pub struct ServerServiceConfig {
    /// The name clients announce, by its digest.
    pub name: String,
    /// The secret that a client of this service shares with the server.
    pub token: String,
    /// Where visitors reach the service, as `host:port`.
    pub bind_addr: String,
}

impl Clone for ServerServiceConfig {
    fn clone(&self) -> (copy: ServerServiceConfig)
        ensures
            copy == *self,
    {
        ServerServiceConfig {
            name: self.name.clone(),
            token: self.token.clone(),
            bind_addr: self.bind_addr.clone(),
        }
    }
}

/// The byte streams a server can speak its protocol over.
#[derive(Clone, Copy, Debug, PartialEq, Eq, Structural)]
pub enum TransportType {
    Tcp,
    Tls,
}

/// The transport section of a server's configuration.
#[derive(Clone, Copy, Debug, PartialEq, Eq, Structural)]
pub struct TransportConfig {
    pub transport_type: TransportType,
}

/// The server section of a configuration.
#[derive(Debug)]
pub struct ServerConfig {
    /// Where clients reach the server, as `host:port`.
    pub bind_addr: String,
    /// The transport that carries control and data channels.
    pub transport: TransportConfig,
    /// The services on offer, each under the key it is filed under. A service
    /// is known to clients by its key, whatever its `name` says. Of two with
    /// the same key the later one counts.
    pub services: Vec<(String, ServerServiceConfig)>,
}

/// A whole configuration; the server section may be absent.
#[derive(Debug)]
pub struct Config {
    pub server: Option<ServerConfig>,
}

/// The digest that names the service filed under `key` on the wire.
pub open spec fn spec_service_digest(key: Seq<char>) -> Seq<u8> {
    sha256(vstd::utf8::encode_utf8(key))
}

/// The services of a configuration by the digest of their keys. A later
/// service replaces an earlier one with the same digest.
pub open spec fn spec_service_map(services: Seq<(String, ServerServiceConfig)>) -> Map<
    Seq<u8>,
    ServerServiceConfig,
>
    decreases services.len(),
{
    if services.len() == 0 {
        Map::empty()
    } else {
        spec_service_map(services.drop_last()).insert(
            spec_service_digest(services.last().0@),
            services.last().1,
        )
    }
}

struct ServiceEntry {
    digest: Digest,
    service: ServerServiceConfig,
}

/// The services of a server, indexed by service digest.
pub struct ServiceTable {
    entries: Vec<ServiceEntry>,
}

spec fn table_model(es: Seq<ServiceEntry>) -> Map<Seq<u8>, ServerServiceConfig>
    decreases es.len(),
{
    if es.len() == 0 {
        Map::empty()
    } else {
        table_model(es.drop_last()).insert(es.last().digest@, es.last().service)
    }
}

proof fn lemma_table_lookup(es: Seq<ServiceEntry>, k: Seq<u8>, from: int)
    requires
        0 <= from <= es.len(),
        forall|j: int| #![trigger es[j]] from <= j < es.len() ==> es[j].digest@ != k,
    ensures
        from == 0 ==> !table_model(es).contains_key(k),
        from > 0 && es[from - 1].digest@ == k ==> table_model(es).contains_key(k) && table_model(
            es,
        )[k] == es[from - 1].service,
    decreases es.len(),
{
    if es.len() > 0 {
        let front = es.drop_last();
        if from < es.len() {
            assert(es[es.len() - 1].digest@ != k);
            assert forall|j: int| #![trigger front[j]] from <= j < front.len() implies front[j].digest@
                != k by {
                assert(front[j] == es[j]);
            }
            lemma_table_lookup(front, k, from);
            if from > 0 {
                assert(front[from - 1] == es[from - 1]);
            }
        }
    }
}

impl View for ServiceTable {
    type V = Map<Seq<u8>, ServerServiceConfig>;

    /// Each known service digest with its service.
    closed spec fn view(&self) -> Map<Seq<u8>, ServerServiceConfig> {
        table_model(self.entries@)
    }
}

impl ServiceTable {
    /// A table without services.
    pub fn new() -> (table: ServiceTable)
        ensures
            table@ == Map::<Seq<u8>, ServerServiceConfig>::empty(),
    {
        ServiceTable { entries: Vec::new() }
    }

    /// Puts `service` under `digest`, in place of any service already there.
    pub fn insert(&mut self, digest: Digest, service: ServerServiceConfig)
        ensures
            final(self)@ == old(self)@.insert(digest@, service),
    {
        let ghost before = self.entries@;
        let e = ServiceEntry { digest, service };
        self.entries.push(e);
        assert(self.entries@.drop_last() =~= before);
    }

    /// The service stored under `digest`.
    pub fn get(&self, digest: &Digest) -> (r: Option<&ServerServiceConfig>)
        ensures
            match r {
                Some(service) => self@.contains_key(digest@) && self@[digest@] == *service,
                None => !self@.contains_key(digest@),
            },
    {
        let mut i: usize = self.entries.len();
        while i > 0
            invariant
                i <= self.entries@.len(),
                forall|j: int|
                    #![trigger self.entries@[j]]
                    i <= j < self.entries@.len() ==> self.entries@[j].digest@ != digest@,
            decreases i,
        {
            if digest_eq(&self.entries[i - 1].digest, digest) {
                proof {
                    lemma_table_lookup(self.entries@, digest@, i as int);
                }
                return Some(&self.entries[i - 1].service);
            }
            i = i - 1;
        }
        proof {
            lemma_table_lookup(self.entries@, digest@, 0);
        }
        None
    }
}

/// Builds the table of services of a server: each service of the
/// configuration under the SHA-256 of the key it is filed under, copied as it
/// is.
pub fn generate_service_hashmap(server_config: &ServerConfig) -> (table: ServiceTable)
    ensures
        table@ == spec_service_map(server_config.services@),
{
    let mut table = ServiceTable::new();
    let n: usize = server_config.services.len();
    let mut i: usize = 0;
    while i < n
        invariant
            n == server_config.services@.len(),
            i <= n,
            table@ == spec_service_map(server_config.services@.subrange(0, i as int)),
        decreases n - i,
    {
        let entry = &server_config.services[i];
        let d = service_digest(entry.0.as_str());
        table.insert(d, entry.1.clone());
        proof {
            let upto = server_config.services@.subrange(0, i + 1);
            assert(upto.drop_last() =~= server_config.services@.subrange(0, i as int));
            assert(upto.last() == server_config.services@[i as int]);
        }
        i = i + 1;
    }
    assert(server_config.services@.subrange(0, n as int) =~= server_config.services@);
    table
}

} // verus!
