//! The active mappings from source conversations to destinations.

use crate::error::NotBound;
use crate::message::opt_text;
use std::collections::HashMap;
use vstd::prelude::*;

verus! {

broadcast use vstd::std_specs::hash::group_hash_axioms;

/// Where the messages of one source conversation go, and how.
#[derive(Clone, Debug, PartialEq, Eq)]
pub struct Mapping {
    pub source_id: u64,
    pub destination_id: u64,
    /// Whether the source's users may ask for a replay of its history.
    pub backfill_on_demand: bool,
    /// The address to impersonate authors through, where that is set up.
    pub impersonation_endpoint: Option<String>,
}

/// What a mapping says.
pub struct MappingView {
    pub source_id: u64,
    pub destination_id: u64,
    pub backfill_on_demand: bool,
    pub impersonation_endpoint: Option<Seq<char>>,
}

impl View for Mapping {
    type V = MappingView;

    open spec fn view(&self) -> MappingView {
        MappingView {
            source_id: self.source_id,
            destination_id: self.destination_id,
            backfill_on_demand: self.backfill_on_demand,
            impersonation_endpoint: opt_text(self.impersonation_endpoint),
        }
    }
}

/// What the registry keeps for a source.
#[derive(Debug)]
struct Route {
    destination_id: u64,
    backfill_on_demand: bool,
    impersonation_endpoint: Option<String>,
}

/// The set of active mappings, at most one for each source.
#[derive(Debug)]
pub struct MappingRegistry {
    routes: HashMap<u64, Route>,
}

impl View for MappingRegistry {
    type V = Map<u64, MappingView>;

    /// The mappings by source.
    closed spec fn view(&self) -> Map<u64, MappingView> {
        Map::new(
            |k: u64| self.routes@.contains_key(k),
            |k: u64|
                MappingView {
                    source_id: k,
                    destination_id: self.routes@[k].destination_id,
                    backfill_on_demand: self.routes@[k].backfill_on_demand,
                    impersonation_endpoint: opt_text(self.routes@[k].impersonation_endpoint),
                },
        )
    }
}

impl MappingRegistry {
    /// A source has one mapping at most, and that mapping names the source.
    pub proof fn lemma_filed_by_source(&self, source_id: u64)
        requires
            self@.contains_key(source_id),
        ensures
            self@[source_id].source_id == source_id,
    {
    }

    /// There are finitely many mappings.
    pub proof fn lemma_finite(&self)
        ensures
            self@.dom().finite(),
    {
        assert(self@.dom() =~= self.routes@.dom());
    }

    /// A registry without mappings.
    pub fn new() -> (registry: Self)
        ensures
            registry@ == Map::<u64, MappingView>::empty(),
    {
        let registry = MappingRegistry { routes: HashMap::new() };
        assert(registry@ =~= Map::<u64, MappingView>::empty());
        registry
    }

    /// The number of mappings.
    pub fn len(&self) -> (n: usize)
        ensures
            n == self@.len(),
    {
        assert(self@.dom() =~= self.routes@.dom());
        self.routes.len()
    }

    /// The mapping of a source as it stands now, if the source has one.
    pub fn lookup(&self, source_id: u64) -> (found: Option<Mapping>)
        ensures
            found is Some == self@.contains_key(source_id),
            found matches Some(m) ==> m@ == self@[source_id],
    {
        match self.routes.get(&source_id) {
            Some(route) => {
                let impersonation_endpoint = match &route.impersonation_endpoint {
                    Some(endpoint) => Some(endpoint.clone()),
                    None => None,
                };
                Some(
                    Mapping {
                        source_id,
                        destination_id: route.destination_id,
                        backfill_on_demand: route.backfill_on_demand,
                        impersonation_endpoint,
                    },
                )
            },
            None => None,
        }
    }

    /// Where the messages of a source go, if it is mapped.
    pub fn get_target_channel(&self, source_id: u64) -> (target: Option<u64>)
        ensures
            target == if self@.contains_key(source_id) {
                Some(self@[source_id].destination_id)
            } else {
                None
            },
    {
        match self.routes.get(&source_id) {
            Some(route) => Some(route.destination_id),
            None => None,
        }
    }

    /// Files `mapping` under its source, in place of any mapping the source had.
    pub fn insert(&mut self, mapping: Mapping)
        ensures
            final(self)@ == old(self)@.insert(mapping.source_id, mapping@),
    {
        self.routes.insert(
            mapping.source_id,
            Route {
                destination_id: mapping.destination_id,
                backfill_on_demand: mapping.backfill_on_demand,
                impersonation_endpoint: mapping.impersonation_endpoint,
            },
        );
        assert(self@ =~= old(self)@.insert(mapping.source_id, mapping@));
    }

    /// Maps a source to a destination, in place of any mapping the source had.
    /// The new mapping has no impersonation endpoint.
    pub fn bind(&mut self, source_id: u64, destination_id: u64, backfill_on_demand: bool)
        ensures
            final(self)@ == old(self)@.insert(
                source_id,
                MappingView {
                    source_id,
                    destination_id,
                    backfill_on_demand,
                    impersonation_endpoint: None,
                },
            ),
    {
        self.insert(
            Mapping { source_id, destination_id, backfill_on_demand, impersonation_endpoint: None },
        );
    }

    /// Sets the endpoint through which the authors of a source are
    /// impersonated, in place of any the mapping had. The source must be mapped.
    pub fn set_transport(&mut self, source_id: u64, endpoint: String) -> (done: Result<
        (),
        NotBound,
    >)
        ensures
            old(self)@.contains_key(source_id) ==> done is Ok && final(self)@ == old(self)@.insert(
                source_id,
                MappingView {
                    impersonation_endpoint: Some(endpoint@),
                    ..old(self)@[source_id]
                },
            ),
            !old(self)@.contains_key(source_id) ==> done == Err::<(), NotBound>(
                NotBound { source_id },
            ) && final(self)@ == old(self)@,
    {
        let (destination_id, backfill_on_demand) = match self.routes.get(&source_id) {
            Some(route) => (route.destination_id, route.backfill_on_demand),
            None => {
                return Err(NotBound { source_id });
            },
        };
        self.insert(
            Mapping {
                source_id,
                destination_id,
                backfill_on_demand,
                impersonation_endpoint: Some(endpoint),
            },
        );
        Ok(())
    }
}

/// No operation of the registry takes a mapping away: a source that is
/// mapped stays mapped through `insert`, `bind` and `set_transport`.
pub proof fn lemma_mappings_stay(before: Map<u64, MappingView>, source_id: u64, m: MappingView, k: u64)
    requires
        before.contains_key(k),
    ensures
        before.insert(source_id, m).contains_key(k),
{
}

} // verus!
