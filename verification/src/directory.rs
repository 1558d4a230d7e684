//! The entity directory: one scan of an array of entity addresses, entity
//! by entity.
//!
//! The directory decides; its caller reads. For each address the caller
//! reads the entity's name id and reports it with `entity_seen`. The answer
//! is a step: resolve the name and report it with `name_resolved`, skip the
//! entity, or hand the record to its handler. A name that was resolved once
//! stays in the cache for good and is never asked for again.

use std::collections::HashMap;
use vstd::prelude::*;
use vstd::utf8::encode_utf8;
use crate::functionmap::{dispatch_handler, FunctionMap, HandlerKind};

verus! {

broadcast use vstd::std_specs::hash::group_hash_axioms;

/// One entity of a scan, with its name resolved and its handler chosen.
#[derive(Debug, PartialEq, Eq)]
pub struct EntityRecord {
    pub address: u64,
    pub name_id: i32,
    pub name: String,
    pub handler: Option<HandlerKind>,
}

/// What the caller of the directory does next with an entity.
#[derive(Debug, PartialEq, Eq)]
pub enum ScanStep {
    /// Resolve the entity's name id and report the outcome.
    Resolve,
    /// Leave the entity out of this scan.
    Skip,
    /// Hand the entity to its handler; without a handler, ignore it.
    Dispatch(EntityRecord),
}

/// An entity record with its name as a sequence of characters.
pub ghost struct RecordView {
    pub address: u64,
    pub name_id: i32,
    pub name: Seq<char>,
    pub handler: Option<HandlerKind>,
}

/// A scan step with its record by view.
pub ghost enum StepView {
    Resolve,
    Skip,
    Dispatch(RecordView),
}

impl View for EntityRecord {
    type V = RecordView;

    open spec fn view(&self) -> RecordView {
        RecordView {
            address: self.address,
            name_id: self.name_id,
            name: self.name@,
            handler: self.handler,
        }
    }
}

impl View for ScanStep {
    type V = StepView;

    open spec fn view(&self) -> StepView {
        match self {
            ScanStep::Resolve => StepView::Resolve,
            ScanStep::Skip => StepView::Skip,
            ScanStep::Dispatch(record) => StepView::Dispatch(record@),
        }
    }
}

/// The handler of a name: by the registry where its type key is registered,
/// else by the substring chain. Every scan loop dispatches this way.
pub open spec fn handler_of(registry: Map<Seq<u8>, HandlerKind>, name: Seq<char>) -> Option<
    HandlerKind,
> {
    dispatch_handler(registry, encode_utf8(name))
}

/// Whether the name of `id` has to be resolved: the null id has no name, and
/// a cached id is never resolved again.
pub open spec fn needs_resolution(names: Map<i32, Seq<char>>, id: i32) -> bool {
    id != 0 && !names.contains_key(id)
}

/// The step for an entity whose name is at hand: an entity with the empty
/// name is dropped, any other is dispatched.
pub open spec fn named_step(
    registry: Map<Seq<u8>, HandlerKind>,
    address: u64,
    id: i32,
    name: Seq<char>,
) -> StepView {
    if name.len() == 0 {
        StepView::Skip
    } else {
        StepView::Dispatch(
            RecordView { address, name_id: id, name, handler: handler_of(registry, name) },
        )
    }
}

/// The step for an entity that was seen with name id `id`.
pub open spec fn seen_step(
    registry: Map<Seq<u8>, HandlerKind>,
    names: Map<i32, Seq<char>>,
    address: u64,
    id: i32,
) -> StepView {
    if id == 0 {
        StepView::Skip
    } else if names.contains_key(id) {
        named_step(registry, address, id, names[id])
    } else {
        StepView::Resolve
    }
}

/// The step for an entity after the attempt to resolve its name. A failed
/// attempt drops the entity; an outcome for an id that needed no resolution
/// is ignored.
pub open spec fn resolved_step(
    registry: Map<Seq<u8>, HandlerKind>,
    names: Map<i32, Seq<char>>,
    address: u64,
    id: i32,
    outcome: Option<Seq<char>>,
) -> StepView {
    if !needs_resolution(names, id) {
        seen_step(registry, names, address, id)
    } else {
        match outcome {
            Some(name) => named_step(registry, address, id, name),
            None => StepView::Skip,
        }
    }
}

/// The cache after the attempt to resolve `id`: a name that was found is
/// added, and nothing that was there changes.
pub open spec fn resolved_names(
    names: Map<i32, Seq<char>>,
    id: i32,
    outcome: Option<Seq<char>>,
) -> Map<i32, Seq<char>> {
    match outcome {
        Some(name) => if needs_resolution(names, id) {
            names.insert(id, name)
        } else {
            names
        },
        None => names,
    }
}

/// The address of the island service after a step: the entity that was
/// dispatched to the island service's handler, else what it was.
pub open spec fn island_service_after(before: u64, step: StepView) -> u64 {
    match step {
        StepView::Dispatch(record) => if record.handler == Some(HandlerKind::IslandService) {
            record.address
        } else {
            before
        },
        _ => before,
    }
}

/// The state of one scan loop: the name cache, the registry of handlers, and
/// the address of the island service as far as the scan has met it.
pub struct ActorDirectory {
    actor_name_map: HashMap<i32, String>,
    function_map: FunctionMap,
    island_service: u64,
}

impl ActorDirectory {
    /// The invariant of the directory: its registry is well-formed, and the
    /// null id has no name.
    pub closed spec fn wf(&self) -> bool {
        &&& self.function_map.wf()
        &&& !self.actor_name_map@.contains_key(0)
    }

    /// The name cache: the names resolved so far, by id.
    pub closed spec fn names(&self) -> Map<i32, Seq<char>> {
        Map::new(
            |id: i32| self.actor_name_map@.contains_key(id),
            |id: i32| self.actor_name_map@[id]@,
        )
    }

    /// The registry of handlers.
    pub closed spec fn registry(&self) -> Map<Seq<u8>, HandlerKind> {
        self.function_map@
    }

    /// The address of the island service, or zero while it has not been met.
    pub closed spec fn island(&self) -> u64 {
        self.island_service
    }

    /// A directory with an empty cache that dispatches by `function_map`.
    pub fn with_registry(function_map: FunctionMap) -> (directory: ActorDirectory)
        requires
            function_map.wf(),
        ensures
            directory.wf(),
            directory.names() == Map::<i32, Seq<char>>::empty(),
            directory.registry() == function_map@,
            directory.island() == 0,
    {
        let directory = ActorDirectory {
            actor_name_map: HashMap::new(),
            function_map,
            island_service: 0,
        };
        assert(directory.names() =~= Map::<i32, Seq<char>>::empty());
        directory
    }

    /// A directory with an empty cache and the default registry. Each scan
    /// loop has one of its own.
    pub fn new() -> (directory: ActorDirectory)
        ensures
            directory.wf(),
            directory.names() == Map::<i32, Seq<char>>::empty(),
            directory.registry() == crate::functionmap::default_registry(),
            directory.island() == 0,
    {
        ActorDirectory::with_registry(FunctionMap::new())
    }

    /// The null id is never cached.
    pub proof fn lemma_null_id_has_no_name(&self)
        requires
            self.wf(),
        ensures
            !self.names().contains_key(0),
    {
    }

    /// Whether the name of `id` has to be resolved before the entity can be
    /// classified.
    pub fn needs_resolution(&self, id: i32) -> (needed: bool)
        ensures
            needed == needs_resolution(self.names(), id),
    {
        id != 0 && !self.actor_name_map.contains_key(&id)
    }

    /// The address of the island service, or zero while it has not been met.
    pub fn island_service(&self) -> (address: u64)
        ensures
            address == self.island(),
    {
        self.island_service
    }

    /// The cached name of `id`, if it was resolved.
    pub fn cached_name(&self, id: i32) -> (name: Option<String>)
        ensures
            match name {
                Some(n) => self.names().contains_key(id) && self.names()[id] == n@,
                None => !self.names().contains_key(id),
            },
    {
        match self.actor_name_map.get(&id) {
            Some(name) => Some(name.clone()),
            None => None,
        }
    }

    /// Chooses the step for an entity whose name is at hand, and keeps the
    /// address of the island service where the entity is one.
    fn dispatch_named(&mut self, address: u64, id: i32, name: String) -> (step: ScanStep)
        requires
            old(self).wf(),
        ensures
            final(self).wf(),
            final(self).names() == old(self).names(),
            final(self).registry() == old(self).registry(),
            step@ == named_step(old(self).registry(), address, id, name@),
            final(self).island() == island_service_after(old(self).island(), step@),
    {
        if name.as_str().is_empty() {
            return ScanStep::Skip;
        }
        let handler = self.function_map.dispatch(name.as_str());
        match handler {
            Some(HandlerKind::IslandService) => {
                self.island_service = address;
            },
            _ => {},
        }
        ScanStep::Dispatch(EntityRecord { address, name_id: id, name, handler })
    }

    /// Reports an entity of the scan: `address` is where it lies, `name_id`
    /// the id that was read there. Nothing is added to the cache.
    pub fn entity_seen(&mut self, address: u64, name_id: i32) -> (step: ScanStep)
        requires
            old(self).wf(),
        ensures
            final(self).wf(),
            final(self).names() == old(self).names(),
            final(self).registry() == old(self).registry(),
            step@ == seen_step(
                old(self).registry(),
                old(self).names(),
                address,
                name_id,
            ),
            final(self).island() == island_service_after(old(self).island(), step@),
    {
        if name_id == 0 {
            return ScanStep::Skip;
        }
        match self.cached_name(name_id) {
            Some(name) => self.dispatch_named(address, name_id, name),
            None => ScanStep::Resolve,
        }
    }

    /// Reports the attempt to resolve the name of an entity: `outcome` is
    /// the name, or `None` where it could not be read. A name that was found
    /// is cached for good, the empty name too.
    pub fn name_resolved(&mut self, address: u64, name_id: i32, outcome: Option<String>) -> (step:
        ScanStep)
        requires
            old(self).wf(),
        ensures
            final(self).wf(),
            final(self).names() == resolved_names(
                old(self).names(),
                name_id,
                match outcome {
                    Some(name) => Some(name@),
                    None => None,
                },
            ),
            final(self).registry() == old(self).registry(),
            step@ == resolved_step(
                old(self).registry(),
                old(self).names(),
                address,
                name_id,
                match outcome {
                    Some(name) => Some(name@),
                    None => None,
                },
            ),
            final(self).island() == island_service_after(old(self).island(), step@),
    {
        if name_id == 0 || self.actor_name_map.contains_key(&name_id) {
            return self.entity_seen(address, name_id);
        }
        match outcome {
            Some(name) => {
                let ghost before = self.names();
                self.actor_name_map.insert(name_id, name.clone());
                assert(self.names() =~= before.insert(name_id, name@));
                self.dispatch_named(address, name_id, name)
            },
            None => ScanStep::Skip,
        }
    }
}

/// The ids among `ids` whose names a scan has to resolve, given what the
/// cache holds when the scan begins.
pub open spec fn unresolved_ids(names: Map<i32, Seq<char>>, ids: Seq<i32>) -> Set<i32> {
    Set::new(|id: i32| ids.contains(id) && needs_resolution(names, id))
}

/// The number of resolutions that a scan asks for when it meets the entities
/// with the name ids `ids` in this order, where every resolution succeeds and
/// `naming` gives the name that is found for an id.
pub open spec fn resolutions_asked(
    names: Map<i32, Seq<char>>,
    ids: Seq<i32>,
    naming: spec_fn(i32) -> Seq<char>,
) -> nat
    decreases ids.len(),
{
    if ids.len() == 0 {
        0
    } else if needs_resolution(names, ids[0]) {
        1 + resolutions_asked(
            resolved_names(names, ids[0], Some(naming(ids[0]))),
            ids.drop_first(),
            naming,
        )
    } else {
        resolutions_asked(names, ids.drop_first(), naming)
    }
}

/// An entity is sent to resolution exactly when its id needs it.
pub proof fn lemma_resolve_iff_needed(
    registry: Map<Seq<u8>, HandlerKind>,
    names: Map<i32, Seq<char>>,
    address: u64,
    id: i32,
)
    ensures
        seen_step(registry, names, address, id) is Resolve <==> needs_resolution(names, id),
{
}

/// What is cached stays cached, under the same name, whatever is reported.
pub proof fn lemma_cache_is_permanent(
    names: Map<i32, Seq<char>>,
    id: i32,
    outcome: Option<Seq<char>>,
    known: i32,
)
    requires
        names.contains_key(known),
    ensures
        resolved_names(names, id, outcome).contains_key(known),
        resolved_names(names, id, outcome)[known] == names[known],
{
}

/// Each id is resolved once: over a scan in which every resolution succeeds,
/// the number of resolutions is the number of distinct ids that are neither
/// null nor cached at the start, however many entities share them.
pub proof fn lemma_one_resolution_per_id(
    names: Map<i32, Seq<char>>,
    ids: Seq<i32>,
    naming: spec_fn(i32) -> Seq<char>,
)
    ensures
        unresolved_ids(names, ids).finite(),
        resolutions_asked(names, ids, naming) == unresolved_ids(names, ids).len(),
    decreases ids.len(),
{
    let todo = unresolved_ids(names, ids);
    if ids.len() == 0 {
        assert(todo =~= Set::<i32>::empty());
    } else {
        let first = ids[0];
        let rest = ids.drop_first();
        assert forall|id: i32| ids.contains(id) <==> id == first || rest.contains(id) by {
            if ids.contains(id) {
                let k = choose|k: int| 0 <= k < ids.len() && ids[k] == id;
                if k > 0 {
                    assert(rest[k - 1] == id);
                }
            }
            if rest.contains(id) {
                let k = choose|k: int| 0 <= k < rest.len() && rest[k] == id;
                assert(ids[k + 1] == id);
            }
            assert(ids[0] == first);
        }
        if needs_resolution(names, first) {
            let after = resolved_names(names, first, Some(naming(first)));
            lemma_one_resolution_per_id(after, rest, naming);
            let later = unresolved_ids(after, rest);
            assert(!later.contains(first));
            assert(todo =~= later.insert(first));
        } else {
            lemma_one_resolution_per_id(names, rest, naming);
            assert(todo =~= unresolved_ids(names, rest));
        }
    }
}

/// A scan that starts with an empty cache and meets no null id asks for as
/// many resolutions as there are distinct ids, whatever the number of
/// entities, provided that every resolution succeeds.
pub proof fn lemma_fresh_scan_resolves_distinct_ids(
    ids: Seq<i32>,
    naming: spec_fn(i32) -> Seq<char>,
)
    requires
        !ids.contains(0),
    ensures
        resolutions_asked(Map::<i32, Seq<char>>::empty(), ids, naming) == ids.to_set().len(),
{
    let empty = Map::<i32, Seq<char>>::empty();
    lemma_one_resolution_per_id(empty, ids, naming);
    assert(unresolved_ids(empty, ids) =~= ids.to_set());
}

} // verus!
