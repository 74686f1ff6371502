//! Keeps what was read about each package for a while, and says for every
//! lookup whether it can be answered from what is kept or needs a request
//! to a registry.
//!
//! The cache makes no request itself. A lookup is two steps around the
//! request that its caller makes: [`PackageVersionFetcher::get`] answers from
//! the cache or names the address to ask, and
//! [`PackageVersionFetcher::complete`] takes what came back.

use crate::fetcher::{
    body_metadata, fetch, metadata_view, FetchOptions, MetadataFromRegistry, MetadataView,
};
use crate::registry::{package_url, registry_for, request_url, select_registry, DEFAULT_REGISTRY};
use vstd::hash_map::StringHashMap;
use vstd::prelude::*;
use vstd::string::StringSliceAdditionalSpecFns;

verus! {

/// How long what was read about a package is served again without asking,
/// in milliseconds.
pub const REFRESH_DURATION_MS: u64 = 30_000;

/// What was read at `fetched_at` is fresh at `now` while less than the
/// refresh duration has passed.
pub open spec fn is_fresh(fetched_at: u64, now: u64) -> bool {
    now - fetched_at < REFRESH_DURATION_MS
}

/// Whether what was read at `fetched_at` is still fresh at `now`.
pub fn fresh(fetched_at: u64, now: u64) -> (r: bool)
    ensures
        r == is_fresh(fetched_at, now),
{
    now <= fetched_at || now - fetched_at < REFRESH_DURATION_MS
}

/// What the cache answers a lookup with at `now`: the entry that it keeps
/// for the package, while that entry is fresh.
pub open spec fn cached_entry(
    entries: Map<Seq<char>, MetadataView>,
    name: Seq<char>,
    now: u64,
) -> Option<MetadataView> {
    if entries.contains_key(name) && is_fresh(entries[name].fetch_timestamp, now) {
        Some(entries[name])
    } else {
        None
    }
}

/// The cache after a request for a package has ended: what was read takes
/// the package's place, and a request that gave nothing changes nothing.
pub open spec fn after_request(
    entries: Map<Seq<char>, MetadataView>,
    name: Seq<char>,
    fetched: Option<MetadataView>,
) -> Map<Seq<char>, MetadataView> {
    match fetched {
        Some(metadata) => entries.insert(name, metadata),
        None => entries,
    }
}

/// The table that a list of scopes and registries makes: a scope that is
/// listed twice keeps its last registry.
pub open spec fn scope_table(pairs: Seq<(String, String)>) -> Map<Seq<char>, String>
    decreases pairs.len(),
{
    if pairs.len() == 0 {
        Map::empty()
    } else {
        scope_table(pairs.drop_last()).insert(pairs.last().0@, pairs.last().1)
    }
}

/// What a lookup needs next.
pub enum Lookup {
    /// The cache holds a fresh entry: this is a copy of it.
    Cached(MetadataFromRegistry),
    /// The registry has to be asked, at this address.
    Fetch(String),
}

/// The cache of package metadata, with the registries that it names for
/// lookups.
pub struct PackageVersionFetcher {
    cache: StringHashMap<MetadataFromRegistry>,
    scope_registries: StringHashMap<String>,
    default_registry: String,
}

impl PackageVersionFetcher {
    /// What the cache keeps for each package.
    pub closed spec fn entries(&self) -> Map<Seq<char>, MetadataView> {
        self.cache@.map_values(|m: MetadataFromRegistry| m@)
    }

    /// The registry of each scope that has one of its own.
    pub closed spec fn scopes(&self) -> Map<Seq<char>, String> {
        self.scope_registries@
    }

    /// The registry of every other package.
    pub closed spec fn default_registry(&self) -> Seq<char> {
        self.default_registry@
    }

    /// The address at which the registry of a package serves it.
    pub open spec fn url_of(&self, name: &str) -> Seq<char> {
        package_url(registry_for(self.scopes(), self.default_registry(), name@), name.spec_bytes())
    }

    /// An empty cache with a table of scoped registries and a default
    /// registry; where none is given, the default is [`DEFAULT_REGISTRY`].
    pub fn new(scope_registries: Vec<(String, String)>, default_registry: Option<String>) -> (r:
        Self)
        ensures
            r.entries() == Map::<Seq<char>, MetadataView>::empty(),
            r.scopes() == scope_table(scope_registries@),
            r.default_registry() == match default_registry {
                Some(registry) => registry@,
                None => DEFAULT_REGISTRY@,
            },
    {
        let mut table: StringHashMap<String> = StringHashMap::new();
        let mut i: usize = 0;
        proof {
            assert(scope_registries@.take(0) =~= Seq::empty());
        }
        while i < scope_registries.len()
            invariant
                i <= scope_registries.len(),
                table@ == scope_table(scope_registries@.take(i as int)),
            decreases scope_registries.len() - i,
        {
            proof {
                let next = scope_registries@.take(i as int + 1);
                assert(next.drop_last() == scope_registries@.take(i as int));
                assert(next.last() == scope_registries@[i as int]);
            }
            table.insert(scope_registries[i].0.clone(), scope_registries[i].1.clone());
            i += 1;
        }
        proof {
            assert(scope_registries@.take(scope_registries.len() as int) == scope_registries@);
        }
        let cache: StringHashMap<MetadataFromRegistry> = StringHashMap::new();
        assert(cache@.map_values(|m: MetadataFromRegistry| m@) =~= Map::empty());
        PackageVersionFetcher {
            cache,
            scope_registries: table,
            default_registry: match default_registry {
                Some(registry) => registry,
                None => DEFAULT_REGISTRY.to_owned(),
            },
        }
    }

    /// The address at which the registry of a package serves it.
    pub fn request_url(&self, package_name: &str) -> (r: String)
        ensures
            r@ == self.url_of(package_name),
    {
        let registry = select_registry(
            &self.scope_registries,
            self.default_registry.as_str(),
            package_name,
        );
        request_url(registry, package_name)
    }

    /// The first step of a lookup at the time `now`: a copy of the package's
    /// entry where the cache holds a fresh one, else the address to ask.
    pub fn get(&self, package_name: &str, now: u64) -> (r: Lookup)
        ensures
            match cached_entry(self.entries(), package_name@, now) {
                Some(entry) => r matches Lookup::Cached(metadata) && metadata@ == entry,
                None => r matches Lookup::Fetch(url) && url@ == self.url_of(package_name),
            },
    {
        match self.cache.get(package_name) {
            Some(entry) => {
                if fresh(entry.fetch_timestamp, now) {
                    return Lookup::Cached(entry.clone());
                }
            },
            None => {},
        }
        Lookup::Fetch(self.request_url(package_name))
    }

    /// Puts `metadata` in the package's place, whatever was there.
    pub fn store(&mut self, package_name: &str, metadata: MetadataFromRegistry)
        ensures
            final(self).entries() == old(self).entries().insert(package_name@, metadata@),
            final(self).scopes() == old(self).scopes(),
            final(self).default_registry() == old(self).default_registry(),
    {
        self.cache.insert(package_name.to_owned(), metadata);
        assert(self.cache@.map_values(|m: MetadataFromRegistry| m@) =~= old(self).cache@.map_values(
            |m: MetadataFromRegistry| m@,
        ).insert(package_name@, metadata@));
    }

    /// The last step of a lookup: takes the body of the registry's response,
    /// or `None` where the request failed, at the time `now`. What the body
    /// says is stored and returned; where there is no body or it says
    /// nothing, nothing is returned and the cache stays as it is.
    pub fn complete(
        &mut self,
        package_name: &str,
        body: Option<&[u8]>,
        fetch_options: FetchOptions,
        now: u64,
    ) -> (r: Option<MetadataFromRegistry>)
        ensures
            metadata_view(r) == match body {
                Some(bytes) => body_metadata(bytes@, fetch_options, now),
                None => None,
            },
            final(self).entries() == after_request(
                old(self).entries(),
                package_name@,
                metadata_view(r),
            ),
            final(self).scopes() == old(self).scopes(),
            final(self).default_registry() == old(self).default_registry(),
    {
        let fetched = match body {
            Some(bytes) => fetch(bytes, fetch_options, now),
            None => None,
        };
        match fetched {
            Some(metadata) => {
                self.store(package_name, metadata.clone());
                Some(metadata)
            },
            None => None,
        }
    }
}

/// One lookup as a whole: what it returns, what the cache keeps after it,
/// and whether it asked the registry.
pub struct LookupResult {
    pub served: Option<MetadataView>,
    pub entries: Map<Seq<char>, MetadataView>,
    pub asked: bool,
}

/// A lookup at `now` on a cache that keeps `entries`, where a request, if
/// one is made, gives `fetched`: a fresh entry is served without a request;
/// else the registry is asked once and what it gave is stored and served.
pub open spec fn lookup(
    entries: Map<Seq<char>, MetadataView>,
    name: Seq<char>,
    now: u64,
    fetched: Option<MetadataView>,
) -> LookupResult {
    match cached_entry(entries, name, now) {
        Some(entry) => LookupResult { served: Some(entry), entries, asked: false },
        None => LookupResult {
            served: fetched,
            entries: after_request(entries, name, fetched),
            asked: true,
        },
    }
}

/// A second lookup within the refresh duration is served from the cache:
/// where a lookup served an entry, and a second lookup for the same package
/// comes while that entry is fresh, the second lookup serves the same entry
/// and does not ask the registry, whatever a request would have given.
pub proof fn lemma_second_lookup_is_served(
    entries: Map<Seq<char>, MetadataView>,
    name: Seq<char>,
    first: u64,
    fetched: Option<MetadataView>,
    second: u64,
    refetched: Option<MetadataView>,
)
    requires
        lookup(entries, name, first, fetched).served is Some,
        is_fresh(lookup(entries, name, first, fetched).served->0.fetch_timestamp, second),
    ensures
        ({
            let one = lookup(entries, name, first, fetched);
            let two = lookup(one.entries, name, second, refetched);
            &&& two.served == one.served
            &&& !two.asked
            &&& two.entries == one.entries
        }),
{
}

/// A lookup after the refresh duration asks the registry again: where the
/// entry that the cache keeps for a package is no longer fresh, a lookup
/// asks the registry, serves what the request gave, and a lookup that
/// follows while that is fresh asks no more.
pub proof fn lemma_stale_lookup_asks_once(
    entries: Map<Seq<char>, MetadataView>,
    name: Seq<char>,
    now: u64,
    fetched: Option<MetadataView>,
    later: u64,
    refetched: Option<MetadataView>,
)
    requires
        entries.contains_key(name),
        !is_fresh(entries[name].fetch_timestamp, now),
    ensures
        ({
            let one = lookup(entries, name, now, fetched);
            &&& one.asked
            &&& one.served == fetched
            &&& fetched is Some && is_fresh(fetched->0.fetch_timestamp, later) ==> {
                let two = lookup(one.entries, name, later, refetched);
                !two.asked && two.served == fetched
            }
            &&& fetched is None ==> one.entries == entries
        }),
{
}

} // verus!
