//! Dispatch of entity names to annotation handlers.
//!
//! An entity name is a run of tokens joined by underscores. Where it has at
//! least three tokens, the second one is its type key, and the registry is
//! asked for that key. A name that the registry does not know falls through
//! to an ordered chain of substring tests.

use vstd::prelude::*;
use vstd::string::StringSliceAdditionalSpecFns;
use vstd::slice::slice_subrange;
use crate::text::{bytes_eq, contains, contains_bytes, find_byte, tokens};

verus! {

/// The byte that separates the tokens of an entity name.
pub const SEPARATOR: u8 = 95;

/// What is done with an entity once its name is known.
#[derive(Clone, Copy, Debug, PartialEq, Eq, Structural)]
pub enum HandlerKind {
    /// A ship: a distance label, and an aim prediction while a cannon is manned.
    Ship,
    /// Another player: a bounding box.
    Player,
    /// Loot: a label with the entity's own name.
    Treasure,
    /// A damaged spot of a hull: a marker where the damage level is positive.
    DamageZone,
    /// A cooking pot: the state of what is in it.
    CookingPot,
    /// A gunpowder barrel: a fixed label.
    Gunpowder,
    /// The island service: its address is kept for the map handlers.
    IslandService,
    /// A treasure map: the marks on it, placed in the world.
    TreasureMap,
}

/// One registration: a type key and the handler it selects.
pub struct Registration {
    pub key: &'static str,
    pub handler: HandlerKind,
}

/// The registry of handlers by type key. Each key is held once.
pub struct FunctionMap {
    entries: Vec<Registration>,
}

/// The type key of a name: its second token, where it has at least three.
pub open spec fn type_key(name: Seq<u8>) -> Option<Seq<u8>> {
    let parts = tokens(name, SEPARATOR);
    if parts.len() >= 3 {
        Some(parts[1])
    } else {
        None
    }
}

/// The handler that the registry holds for the type key of `name`.
pub open spec fn exact_handler(registry: Map<Seq<u8>, HandlerKind>, name: Seq<u8>) -> Option<
    HandlerKind,
> {
    match type_key(name) {
        Some(key) => if registry.contains_key(key) {
            Some(registry[key])
        } else {
            None
        },
        None => None,
    }
}

/// The substring chain: the first marker that occurs in `name` decides.
pub open spec fn fallback_handler(name: Seq<u8>) -> Option<HandlerKind> {
    if contains(name, "Gunpowder".spec_bytes()) {
        Some(HandlerKind::Gunpowder)
    } else if contains(name, "DamageZone".spec_bytes()) {
        Some(HandlerKind::DamageZone)
    } else if contains(name, "IslandService".spec_bytes()) {
        Some(HandlerKind::IslandService)
    } else if contains(name, "BP_TreasureMap_C".spec_bytes()) {
        Some(HandlerKind::TreasureMap)
    } else {
        None
    }
}

/// The handler of a name: the exact match where there is one, else what the
/// substring chain gives.
pub open spec fn dispatch_handler(registry: Map<Seq<u8>, HandlerKind>, name: Seq<u8>) -> Option<
    HandlerKind,
> {
    match exact_handler(registry, name) {
        Some(handler) => Some(handler),
        None => fallback_handler(name),
    }
}

/// The registrations that `FunctionMap::new` makes.
pub open spec fn default_registry() -> Map<Seq<u8>, HandlerKind> {
    Map::<Seq<u8>, HandlerKind>::empty().insert(
        "SmallShipTemplate".spec_bytes(),
        HandlerKind::Ship,
    ).insert("SmallShipNetProxy".spec_bytes(), HandlerKind::Ship).insert(
        "MediumShipTemplate".spec_bytes(),
        HandlerKind::Ship,
    ).insert("MediumShipNetProxy".spec_bytes(), HandlerKind::Ship).insert(
        "LargeShipTemplate".spec_bytes(),
        HandlerKind::Ship,
    ).insert("LargeShipNetProxy".spec_bytes(), HandlerKind::Ship).insert(
        "AISmallShipTemplate".spec_bytes(),
        HandlerKind::Ship,
    ).insert("AISmallShipNetProxy".spec_bytes(), HandlerKind::Ship).insert(
        "AILargeShipTemplate".spec_bytes(),
        HandlerKind::Ship,
    ).insert("AILargeShipNetProxy".spec_bytes(), HandlerKind::Ship).insert(
        "PlayerPirate".spec_bytes(),
        HandlerKind::Player,
    ).insert("TreasureChest".spec_bytes(), HandlerKind::Treasure).insert(
        "BountyRewardSkull".spec_bytes(),
        HandlerKind::Treasure,
    ).insert("TreasureArtifact".spec_bytes(), HandlerKind::Treasure).insert(
        "DamageZone".spec_bytes(),
        HandlerKind::DamageZone,
    ).insert("ShipCookingPot".spec_bytes(), HandlerKind::CookingPot)
}

/// Whether `i` is a place in `entries` that holds `key`.
pub open spec fn holds_key(entries: Seq<Registration>, key: Seq<u8>, i: int) -> bool {
    0 <= i < entries.len() && entries[i].key.spec_bytes() == key
}

/// The map that a list of registrations with distinct keys stands for.
pub open spec fn entries_map(entries: Seq<Registration>) -> Map<Seq<u8>, HandlerKind> {
    Map::new(
        |key: Seq<u8>| exists|i: int| holds_key(entries, key, i),
        |key: Seq<u8>| entries[choose|i: int| holds_key(entries, key, i)].handler,
    )
}

/// No key stands at two places.
pub open spec fn distinct_keys(entries: Seq<Registration>) -> bool {
    forall|i: int, j: int|
        #![trigger entries[i], entries[j]]
        0 <= i < entries.len() && 0 <= j < entries.len() && entries[i].key.spec_bytes()
            == entries[j].key.spec_bytes() ==> i == j
}

impl View for FunctionMap {
    type V = Map<Seq<u8>, HandlerKind>;

    closed spec fn view(&self) -> Map<Seq<u8>, HandlerKind> {
        entries_map(self.entries@)
    }
}

impl FunctionMap {
    /// The registry's invariant: no key is held twice.
    pub closed spec fn wf(&self) -> bool {
        distinct_keys(self.entries@)
    }

    /// A registry without registrations.
    pub fn empty() -> (registry: FunctionMap)
        ensures
            registry.wf(),
            registry@ == Map::<Seq<u8>, HandlerKind>::empty(),
    {
        let registry = FunctionMap { entries: Vec::new() };
        assert(registry@ =~= Map::<Seq<u8>, HandlerKind>::empty());
        registry
    }

    /// Registers `handler` under `key`. A key that is registered already gets
    /// the new handler.
    pub fn register(&mut self, key: &'static str, handler: HandlerKind)
        requires
            old(self).wf(),
        ensures
            final(self).wf(),
            final(self)@ == old(self)@.insert(key.spec_bytes(), handler),
    {
        let ghost before = self.entries@;
        let mut i: usize = 0;
        let mut found: bool = false;
        while i < self.entries.len() && !found
            invariant
                self.entries@ == before,
                0 <= i <= before.len(),
                forall|k: int| 0 <= k < i ==> before[k].key.spec_bytes() != key.spec_bytes(),
                found ==> i < before.len() && before[i as int].key.spec_bytes()
                    == key.spec_bytes(),
            decreases before.len() - i + if found { 0int } else { 1int },
        {
            if bytes_eq(self.entries[i].key.as_bytes(), key.as_bytes()) {
                found = true;
            } else {
                i = i + 1;
            }
        }
        if found {
            self.entries[i] = Registration { key, handler };
            proof {
                let after = self.entries@;
                assert(distinct_keys(after)) by {
                    assert forall|a: int, b: int|
                        #![trigger after[a], after[b]]
                        0 <= a < after.len() && 0 <= b < after.len() && after[a].key.spec_bytes()
                            == after[b].key.spec_bytes() implies a == b by {
                        assert(after[a].key.spec_bytes() == before[a].key.spec_bytes());
                        assert(after[b].key.spec_bytes() == before[b].key.spec_bytes());
                    }
                }
                assert forall|k: Seq<u8>, p: int| holds_key(after, k, p) <==> holds_key(
                    before,
                    k,
                    p,
                ) by {
                    if 0 <= p < after.len() {
                        assert(after[p].key.spec_bytes() == before[p].key.spec_bytes());
                    }
                }
                assert(holds_key(before, key.spec_bytes(), i as int));
                assert(entries_map(after) =~= entries_map(before).insert(
                    key.spec_bytes(),
                    handler,
                )) by {
                    assert forall|k: Seq<u8>| #[trigger]
                        entries_map(after).contains_key(k) implies entries_map(after)[k]
                        == entries_map(before).insert(key.spec_bytes(), handler)[k] by {
                        let p = choose|p: int| holds_key(after, k, p);
                        let q = choose|q: int| holds_key(before, k, q);
                        assert(holds_key(before, k, p));
                        assert(p == q);
                    }
                }
            }
        } else {
            self.entries.push(Registration { key, handler });
            proof {
                let after = self.entries@;
                let n = before.len() as int;
                assert(after.len() == n + 1);
                assert forall|p: int| 0 <= p < n implies after[p] == before[p] by {}
                assert(distinct_keys(after)) by {
                    assert forall|a: int, b: int|
                        #![trigger after[a], after[b]]
                        0 <= a < after.len() && 0 <= b < after.len() && after[a].key.spec_bytes()
                            == after[b].key.spec_bytes() implies a == b by {
                        if a < n {
                            assert(after[a] == before[a]);
                        }
                        if b < n {
                            assert(after[b] == before[b]);
                        }
                    }
                }
                assert(holds_key(after, key.spec_bytes(), n));
                assert(entries_map(after) =~= entries_map(before).insert(
                    key.spec_bytes(),
                    handler,
                )) by {
                    assert forall|k: Seq<u8>| #[trigger]
                        entries_map(after).contains_key(k) <==> entries_map(before).insert(
                            key.spec_bytes(),
                            handler,
                        ).contains_key(k) by {
                        if entries_map(after).contains_key(k) {
                            let p = choose|p: int| holds_key(after, k, p);
                            if p < n {
                                assert(holds_key(before, k, p));
                            }
                        }
                        if entries_map(before).contains_key(k) {
                            let q = choose|q: int| holds_key(before, k, q);
                            assert(holds_key(after, k, q));
                        }
                    }
                    assert forall|k: Seq<u8>| #[trigger]
                        entries_map(after).contains_key(k) implies entries_map(after)[k]
                        == entries_map(before).insert(key.spec_bytes(), handler)[k] by {
                        let p = choose|p: int| holds_key(after, k, p);
                        if k != key.spec_bytes() {
                            assert(p < n);
                            assert(holds_key(before, k, p));
                            let q = choose|q: int| holds_key(before, k, q);
                            assert(p == q);
                        } else {
                            assert(p == n);
                        }
                    }
                }
            }
        }
    }

    /// The registry with the handlers of ships, players, loot, damage zones and
    /// cooking pots under the type keys of those entities.
    pub fn new() -> (registry: FunctionMap)
        ensures
            registry.wf(),
            registry@ == default_registry(),
    {
        let mut registry = FunctionMap::empty();
        registry.register("SmallShipTemplate", HandlerKind::Ship);
        registry.register("SmallShipNetProxy", HandlerKind::Ship);
        registry.register("MediumShipTemplate", HandlerKind::Ship);
        registry.register("MediumShipNetProxy", HandlerKind::Ship);
        registry.register("LargeShipTemplate", HandlerKind::Ship);
        registry.register("LargeShipNetProxy", HandlerKind::Ship);
        registry.register("AISmallShipTemplate", HandlerKind::Ship);
        registry.register("AISmallShipNetProxy", HandlerKind::Ship);
        registry.register("AILargeShipTemplate", HandlerKind::Ship);
        registry.register("AILargeShipNetProxy", HandlerKind::Ship);
        registry.register("PlayerPirate", HandlerKind::Player);
        registry.register("TreasureChest", HandlerKind::Treasure);
        registry.register("BountyRewardSkull", HandlerKind::Treasure);
        registry.register("TreasureArtifact", HandlerKind::Treasure);
        registry.register("DamageZone", HandlerKind::DamageZone);
        registry.register("ShipCookingPot", HandlerKind::CookingPot);
        registry
    }

    /// The handler registered under `key`, if there is one.
    pub fn get(&self, key: &[u8]) -> (handler: Option<HandlerKind>)
        requires
            self.wf(),
        ensures
            handler == if self@.contains_key(key@) {
                Some(self@[key@])
            } else {
                None
            },
    {
        let mut i: usize = 0;
        while i < self.entries.len()
            invariant
                self.wf(),
                0 <= i <= self.entries@.len(),
                forall|k: int| 0 <= k < i ==> self.entries@[k].key.spec_bytes() != key@,
            decreases self.entries@.len() - i,
        {
            if bytes_eq(self.entries[i].key.as_bytes(), key) {
                proof {
                    assert(holds_key(self.entries@, key@, i as int));
                    let p = choose|p: int| holds_key(self.entries@, key@, p);
                    assert(p == i);
                }
                return Some(self.entries[i].handler);
            }
            i = i + 1;
        }
        None
    }
    /// The handler that the registry holds for the type key of `raw_name`.
    /// A name of fewer than three tokens has no type key, and so no handler
    /// here.
    pub fn exact(&self, raw_name: &str) -> (handler: Option<HandlerKind>)
        requires
            self.wf(),
        ensures
            handler == exact_handler(self@, raw_name.spec_bytes()),
    {
        match type_key_of(raw_name.as_bytes()) {
            Some(key) => self.get(key),
            None => None,
        }
    }

    /// The handler of `raw_name`: the exact match where there is one, else
    /// what the substring chain gives.
    pub fn dispatch(&self, raw_name: &str) -> (handler: Option<HandlerKind>)
        requires
            self.wf(),
        ensures
            handler == dispatch_handler(self@, raw_name.spec_bytes()),
    {
        match self.exact(raw_name) {
            Some(handler) => Some(handler),
            None => fallback(raw_name.as_bytes()),
        }
    }
}

/// Every string has at least one token.
pub proof fn lemma_tokens_nonempty(s: Seq<u8>, sep: u8)
    ensures
        tokens(s, sep).len() >= 1,
{
}

/// Cuts the type key out of a name: the bytes between its first and its
/// second separator, where the name has both.
pub fn type_key_of<'a>(name: &'a [u8]) -> (key: Option<&'a [u8]>)
    ensures
        match key {
            Some(k) => type_key(name@) == Some(k@),
            None => type_key(name@) is None,
        },
{
    let first: usize = find_byte(name, 0, SEPARATOR);
    assert(name@.skip(0) =~= name@);
    if first >= name.len() {
        return None;
    }
    let second: usize = find_byte(name, first + 1, SEPARATOR);
    let ghost rest = name@.skip(first + 1);
    proof {
        lemma_tokens_nonempty(rest, SEPARATOR);
        assert(tokens(name@, SEPARATOR) == seq![name@.take(first as int)] + tokens(
            rest,
            SEPARATOR,
        ));
    }
    if second >= name.len() {
        assert(tokens(rest, SEPARATOR) == seq![rest]);
        return None;
    }
    let key = slice_subrange(name, first + 1, second);
    proof {
        let cut = second - first - 1;
        lemma_tokens_nonempty(rest.skip(cut + 1), SEPARATOR);
        assert(tokens(rest, SEPARATOR) == seq![rest.take(cut)] + tokens(
            rest.skip(cut + 1),
            SEPARATOR,
        ));
        assert(tokens(name@, SEPARATOR)[1] == rest.take(cut));
        assert(rest.take(cut) =~= name@.subrange(first + 1, second as int));
    }
    Some(key)
}

/// Runs the substring chain on a name.
pub fn fallback(name: &[u8]) -> (handler: Option<HandlerKind>)
    ensures
        handler == fallback_handler(name@),
{
    if contains_bytes(name, "Gunpowder".as_bytes()) {
        Some(HandlerKind::Gunpowder)
    } else if contains_bytes(name, "DamageZone".as_bytes()) {
        Some(HandlerKind::DamageZone)
    } else if contains_bytes(name, "IslandService".as_bytes()) {
        Some(HandlerKind::IslandService)
    } else if contains_bytes(name, "BP_TreasureMap_C".as_bytes()) {
        Some(HandlerKind::TreasureMap)
    } else {
        None
    }
}

/// A name of fewer than three tokens never matches exactly: it goes to the
/// substring chain, whatever the registry holds.
pub proof fn lemma_short_name_falls_through(registry: Map<Seq<u8>, HandlerKind>, name: Seq<u8>)
    requires
        tokens(name, SEPARATOR).len() < 3,
    ensures
        exact_handler(registry, name) is None,
        dispatch_handler(registry, name) == fallback_handler(name),
{
}

} // verus!
