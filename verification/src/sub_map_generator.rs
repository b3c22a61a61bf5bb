//! Places new maps inside a map, trying again where a candidate is judged
//! invalid.

use crate::dun_gen::DoesDunGen;
use crate::geometry::Position;
use crate::map::{MapId, SubMapRef, TileMap};
use crate::providers::{provides_fresh_maps, ProvidesCount, ProvidesPosition};
use crate::registry::{MapRegistry, RegistryModel};
use vstd::prelude::*;

verus! {

/// How often a generator tries to place one map before it gives up on it,
/// unless told otherwise.
pub const DEFAULT_MAX_ATTEMPTS: usize = 1000;

/// Whether `validity_check` can be called on every position and every map
/// of every well-formed registry.
pub open spec fn is_total_check<TValidityCheck: Fn(&MapRegistry, Position, MapId) -> bool>(
    validity_check: TValidityCheck,
) -> bool {
    forall|maps: MapRegistry, position: Position, map_id: MapId|
        maps.wf() && maps@.contains(map_id) ==> #[trigger] call_requires(
            validity_check,
            (&maps, position, map_id),
        )
}

/// Whether `validity_check` can answer `verdict` for the map `map_id`,
/// placed at `position`, of a registry with the content `maps`.
pub open spec fn check_answers<TValidityCheck: Fn(&MapRegistry, Position, MapId) -> bool>(
    validity_check: TValidityCheck,
    maps: RegistryModel,
    position: Position,
    map_id: MapId,
    verdict: bool,
) -> bool {
    exists|registry: MapRegistry|
        registry@ == maps && #[trigger] call_ensures(
            validity_check,
            (&registry, position, map_id),
            verdict,
        )
}

/// What a sub-map generator needs to know to place one kind of map: how
/// many, where, and optionally how to make, furnish and judge them.
pub struct SubMapGeneratorSet<
    TProvidesCount,
    TProvidesPosition,
    TMapProvider,
    TDunGen,
    TValidityCheck,
> where
    TProvidesCount: ProvidesCount,
    TProvidesPosition: ProvidesPosition,
    TMapProvider: Fn() -> TileMap,
    TDunGen: DoesDunGen,
    TValidityCheck: Fn(&MapRegistry, Position, MapId) -> bool,
 {
    pub provides_count: TProvidesCount,
    pub provides_position: TProvidesPosition,
    pub provides_map: Option<TMapProvider>,
    pub sub_maps_generators: Option<TDunGen>,
    pub validity_check: Option<TValidityCheck>,
}

impl<
    TProvidesCount,
    TProvidesPosition,
    TMapProvider,
    TDunGen,
    TValidityCheck,
> SubMapGeneratorSet<TProvidesCount, TProvidesPosition, TMapProvider, TDunGen, TValidityCheck> where
    TProvidesCount: ProvidesCount,
    TProvidesPosition: ProvidesPosition,
    TMapProvider: Fn() -> TileMap,
    TDunGen: DoesDunGen,
    TValidityCheck: Fn(&MapRegistry, Position, MapId) -> bool,
 {
    /// The provider returns fresh maps, the generators are fit to be
    /// applied, and the validity check can always be called.
    pub open spec fn wf(&self) -> bool {
        &&& self.provides_map.is_some() ==> provides_fresh_maps(self.provides_map.unwrap())
        &&& self.sub_maps_generators.is_some() ==> self.sub_maps_generators.unwrap().wf()
        &&& self.validity_check.is_some() ==> is_total_check(self.validity_check.unwrap())
    }

    /// Whether `other` differs from this set in the state of its generators
    /// at most.
    pub open spec fn same_but_generators(&self, other: &Self) -> bool {
        &&& other.provides_count == self.provides_count
        &&& other.provides_position == self.provides_position
        &&& other.provides_map == self.provides_map
        &&& other.sub_maps_generators.is_some() == self.sub_maps_generators.is_some()
        &&& other.validity_check == self.validity_check
    }

    /// Says to place as many maps as `provides_count` gives, each at a
    /// position from `provides_position`. The maps come from `provides_map`,
    /// or from the fallback of the generator if there is none; they are
    /// furnished by `sub_maps_generators` and judged by `validity_check`,
    /// as far as these are given.
    pub fn new(
        provides_count: TProvidesCount,
        provides_position: TProvidesPosition,
        provides_map: Option<TMapProvider>,
        sub_maps_generators: Option<TDunGen>,
        validity_check: Option<TValidityCheck>,
    ) -> (set: Self)
        ensures
            set.provides_count == provides_count,
            set.provides_position == provides_position,
            set.provides_map == provides_map,
            set.sub_maps_generators == sub_maps_generators,
            set.validity_check == validity_check,
    {
        Self { provides_count, provides_position, provides_map, sub_maps_generators, validity_check }
    }
}

/// Places new maps inside a map.
///
/// For each set, the generator places as many maps as the set asks for.
/// To place one map it draws a position, makes a candidate map, enters it
/// in the registry, furnishes it with the generators of the set and then
/// with its own, and has it judged. A candidate that is judged valid is
/// embedded in the parent at the position drawn. One that is judged invalid
/// is discarded, and the generator tries again with a new position and a
/// new map; after `max_attempts` candidates in a row have been discarded it
/// gives up on that one map and goes on with the next.
///
/// A candidate is valid if the check of the set accepts it; if the set has
/// no check or its check rejects the candidate, the check of the generator
/// decides; without any check every candidate is valid.
pub struct SubMapGenerator<
    TProvidesCount,
    TProvidesPosition,
    TMapProvider,
    TDunGen,
    TValidityCheck,
    TGlobalDunGen,
> where
    TProvidesCount: ProvidesCount,
    TProvidesPosition: ProvidesPosition,
    TMapProvider: Fn() -> TileMap,
    TDunGen: DoesDunGen,
    TValidityCheck: Fn(&MapRegistry, Position, MapId) -> bool,
    TGlobalDunGen: DoesDunGen,
 {
    sub_maps_generator_sets: Vec<
        SubMapGeneratorSet<TProvidesCount, TProvidesPosition, TMapProvider, TDunGen, TValidityCheck>,
    >,
    fallback_map_provider: Option<TMapProvider>,
    global_sub_map_generators: Option<TGlobalDunGen>,
    validity_check: Option<TValidityCheck>,
    max_attempts: usize,
}

/// One candidate of a placement and what became of it.
pub struct Attempt<TGenerator> {
    /// Where the candidate was to be placed.
    pub position: Position,
    /// The candidate.
    pub candidate: MapId,
    /// Whether the candidate was judged valid and embedded; if not, it was
    /// discarded.
    pub accepted: bool,
    /// The registry when the candidate was judged: after it had been entered
    /// and furnished.
    pub furnished: RegistryModel,
    /// The generator after the attempt.
    pub generator: TGenerator,
    /// The registry after the attempt.
    pub maps: RegistryModel,
}

impl<
    TProvidesCount,
    TProvidesPosition,
    TMapProvider,
    TDunGen,
    TValidityCheck,
    TGlobalDunGen,
> SubMapGenerator<
    TProvidesCount,
    TProvidesPosition,
    TMapProvider,
    TDunGen,
    TValidityCheck,
    TGlobalDunGen,
> where
    TProvidesCount: ProvidesCount,
    TProvidesPosition: ProvidesPosition,
    TMapProvider: Fn() -> TileMap,
    TDunGen: DoesDunGen,
    TValidityCheck: Fn(&MapRegistry, Position, MapId) -> bool,
    TGlobalDunGen: DoesDunGen,
 {
    pub closed spec fn sets(&self) -> Seq<
        SubMapGeneratorSet<TProvidesCount, TProvidesPosition, TMapProvider, TDunGen, TValidityCheck>,
    > {
        self.sub_maps_generator_sets@
    }

    pub closed spec fn fallback_map_provider(&self) -> Option<TMapProvider> {
        self.fallback_map_provider
    }

    pub closed spec fn global_sub_map_generators(&self) -> Option<TGlobalDunGen> {
        self.global_sub_map_generators
    }

    pub closed spec fn validity_check(&self) -> Option<TValidityCheck> {
        self.validity_check
    }

    pub closed spec fn max_attempts(&self) -> usize {
        self.max_attempts
    }

    /// Every part is fit for use, and every set has a map provider to turn
    /// to: its own or the fallback.
    pub open spec fn is_fit(&self) -> bool {
        &&& forall|s: int| 0 <= s < self.sets().len() ==> (#[trigger] self.sets()[s]).wf()
        &&& forall|s: int|
            0 <= s < self.sets().len() ==> (#[trigger] self.sets()[s]).provides_map.is_some()
                || self.fallback_map_provider().is_some()
        &&& self.fallback_map_provider().is_some() ==> provides_fresh_maps(
            self.fallback_map_provider().unwrap(),
        )
        &&& self.global_sub_map_generators().is_some() ==> self.global_sub_map_generators().unwrap().wf()
        &&& self.validity_check().is_some() ==> is_total_check(self.validity_check().unwrap())
    }

    /// Whether `other` differs from this generator in the state of the
    /// generators it holds at most.
    pub open spec fn same_but_generators(&self, other: &Self) -> bool {
        &&& other.sets().len() == self.sets().len()
        &&& forall|s: int|
            0 <= s < self.sets().len() ==> (#[trigger] self.sets()[s]).same_but_generators(
                &other.sets()[s],
            )
        &&& other.fallback_map_provider() == self.fallback_map_provider()
        &&& other.global_sub_map_generators().is_some() == self.global_sub_map_generators().is_some()
        &&& other.validity_check() == self.validity_check()
        &&& other.max_attempts() == self.max_attempts()
    }

    /// A generator that places the maps that `sub_maps_generator_sets` ask
    /// for. Sets without a map provider use `fallback_map_provider`; every
    /// candidate is furnished by `global_sub_map_generators` as well, and
    /// `validity_check` judges where the set does not accept. The generator
    /// tries `DEFAULT_MAX_ATTEMPTS` candidates for each map.
    pub fn new(
        sub_maps_generator_sets: Vec<
            SubMapGeneratorSet<
                TProvidesCount,
                TProvidesPosition,
                TMapProvider,
                TDunGen,
                TValidityCheck,
            >,
        >,
        fallback_map_provider: Option<TMapProvider>,
        global_sub_map_generators: Option<TGlobalDunGen>,
        validity_check: Option<TValidityCheck>,
    ) -> (generator: Self)
        ensures
            generator.sets() == sub_maps_generator_sets@,
            generator.fallback_map_provider() == fallback_map_provider,
            generator.global_sub_map_generators() == global_sub_map_generators,
            generator.validity_check() == validity_check,
            generator.max_attempts() == DEFAULT_MAX_ATTEMPTS,
    {
        Self {
            sub_maps_generator_sets,
            fallback_map_provider,
            global_sub_map_generators,
            validity_check,
            max_attempts: DEFAULT_MAX_ATTEMPTS,
        }
    }

    /// The same generator, trying `max_attempts` candidates for each map.
    pub fn with_max_attempts(self, max_attempts: usize) -> (generator: Self)
        ensures
            generator.sets() == self.sets(),
            generator.fallback_map_provider() == self.fallback_map_provider(),
            generator.global_sub_map_generators() == self.global_sub_map_generators(),
            generator.validity_check() == self.validity_check(),
            generator.max_attempts() == max_attempts,
    {
        Self { max_attempts, ..self }
    }

    /// Whether `map` can be the candidate that is made for set `set`: it
    /// comes from the provider of the set, or from the fallback if the set
    /// has none.
    pub open spec fn provides_candidate(&self, set: int, map: TileMap) -> bool {
        match self.sets()[set].provides_map {
            Some(map_provider) => call_ensures(map_provider, (), map),
            None => self.fallback_map_provider().is_some() && call_ensures(
                self.fallback_map_provider().unwrap(),
                (),
                map,
            ),
        }
    }

    /// Whether furnishing the candidate `candidate` for set `set` can turn
    /// the registry `before` into `maps` and the generator into `after`:
    /// the generators of the set run first, those of the generator second.
    pub open spec fn furnishes(
        &self,
        after: &Self,
        set: int,
        before: RegistryModel,
        candidate: MapId,
        maps: RegistryModel,
    ) -> bool {
        exists|between: RegistryModel|
            {
                &&& #[trigger] between.extends(before)
                &&& between.wf()
                &&& match self.sets()[set].sub_maps_generators {
                    Some(generator) => after.sets()[set].sub_maps_generators.is_some()
                        && generator.effect(
                        &after.sets()[set].sub_maps_generators.unwrap(),
                        before,
                        candidate,
                        between,
                    ),
                    None => between == before,
                }
                &&& match self.global_sub_map_generators() {
                    Some(generator) => after.global_sub_map_generators().is_some()
                        && generator.effect(
                        &after.global_sub_map_generators().unwrap(),
                        between,
                        candidate,
                        maps,
                    ),
                    None => maps == between,
                }
                &&& maps.wf()
                &&& maps.extends(between)
            }
    }

    /// Whether the candidate `candidate` for set `set`, to be placed at
    /// `position`, can be judged `verdict` in the registry `maps`.
    pub open spec fn judges(
        &self,
        set: int,
        maps: RegistryModel,
        position: Position,
        candidate: MapId,
        verdict: bool,
    ) -> bool {
        match (self.sets()[set].validity_check, self.validity_check()) {
            (None, None) => verdict,
            (Some(check), None) => check_answers(check, maps, position, candidate, verdict),
            (None, Some(check)) => check_answers(check, maps, position, candidate, verdict),
            (Some(first), Some(second)) => {
                ||| verdict && check_answers(first, maps, position, candidate, true)
                ||| check_answers(first, maps, position, candidate, false) && check_answers(
                    second,
                    maps,
                    position,
                    candidate,
                    verdict,
                )
            },
        }
    }

    /// Makes the candidate for set `set`.
    fn provide_map(&self, set: usize) -> (map: TileMap)
        requires
            self.is_fit(),
            set < self.sets().len(),
        ensures
            self.provides_candidate(set as int, map),
            map.wf(),
            map@.is_unlinked(),
    {
        assert(self.sets()[set as int].wf());
        match &self.sub_maps_generator_sets[set].provides_map {
            Some(map_provider) => map_provider(),
            None => match &self.fallback_map_provider {
                Some(map_provider) => map_provider(),
                None => vstd::pervasive::unreached(),
            },
        }
    }

    /// Judges the candidate `candidate` for set `set`, to be placed at
    /// `position`.
    fn judge(&self, set: usize, maps: &MapRegistry, position: Position, candidate: MapId) -> (verdict:
        bool)
        requires
            self.is_fit(),
            set < self.sets().len(),
            maps.wf(),
            maps@.contains(candidate),
        ensures
            self.judges(set as int, maps@, position, candidate, verdict),
    {
        assert(self.sets()[set as int].wf());
        let mut decided: bool = false;
        let mut verdict: bool = true;
        match &self.sub_maps_generator_sets[set].validity_check {
            Some(check) => {
                verdict = check(maps, position, candidate);
                decided = verdict;
                assert(check_answers(*check, maps@, position, candidate, verdict));
            },
            None => {},
        }
        if !decided {
            match &self.validity_check {
                Some(check) => {
                    verdict = check(maps, position, candidate);
                    assert(check_answers(*check, maps@, position, candidate, verdict));
                },
                None => {},
            }
        }
        verdict
    }

    /// Furnishes the candidate `candidate` for set `set`.
    fn furnish(&mut self, set: usize, maps: &mut MapRegistry, candidate: MapId)
        requires
            old(self).is_fit(),
            set < old(self).sets().len(),
            old(maps).wf(),
            old(maps)@.contains(candidate),
        ensures
            final(self).is_fit(),
            old(self).same_but_generators(final(self)),
            final(maps).wf(),
            final(maps)@.extends(old(maps)@),
            old(self).furnishes(final(self), set as int, old(maps)@, candidate, final(maps)@),
    {
        assert(self.sets()[set as int].wf());
        match &mut self.sub_maps_generator_sets[set].sub_maps_generators {
            Some(generator) => {
                generator.dun_gen_map(maps, candidate);
            },
            None => {},
        }
        let ghost between = maps@;
        proof {
            assert forall|s: int| 0 <= s < self.sets().len() implies (#[trigger] self.sets()[s]).wf()
                && old(self).sets()[s].same_but_generators(&self.sets()[s]) by {
                assert(old(self).sets()[s].wf());
            }
        }
        match &mut self.global_sub_map_generators {
            Some(generator) => {
                generator.dun_gen_map(maps, candidate);
            },
            None => {},
        }
        proof {
            assert(between.extends(old(maps)@));
        }
    }

    /// Whether `attempt` can be what comes of one candidate for set `set`,
    /// tried on the registry `before` for the parent `parent`: a position
    /// is drawn, a map is made and entered in the registry under the next
    /// handle, the candidate is furnished and judged, and then it is
    /// embedded in the parent if it was accepted and discarded if not.
    pub open spec fn attempts_once(
        &self,
        set: int,
        before: RegistryModel,
        parent: MapId,
        attempt: Attempt<Self>,
    ) -> bool {
        let furnished = attempt.furnished;
        &&& self.sets()[set].provides_position.provides_position(attempt.position)
        &&& attempt.candidate == before.next_id()
        &&& exists|map: TileMap|
            self.provides_candidate(set, map) && #[trigger] self.furnishes(
                &attempt.generator,
                set,
                before.inserted(map@),
                attempt.candidate,
                furnished,
            )
        &&& self.same_but_generators(&attempt.generator)
        &&& self.judges(set, furnished, attempt.position, attempt.candidate, attempt.accepted)
        &&& attempt.maps == if attempt.accepted {
            furnished.with_map(
                parent,
                furnished.map(parent).with_sub_map(
                    SubMapRef { offset: attempt.position, target: attempt.candidate },
                ),
            )
        } else {
            furnished.invalidated(attempt.candidate)
        }
    }

    /// Tries one candidate for set `set`: returns where it was to be placed,
    /// its handle, whether it was accepted and embedded in `parent`, and the
    /// registry as it was when the candidate was judged.
    fn attempt(&mut self, set: usize, maps: &mut MapRegistry, parent: MapId) -> (outcome: (
        Position,
        MapId,
        bool,
        Ghost<RegistryModel>,
    ))
        requires
            old(self).is_fit(),
            set < old(self).sets().len(),
            old(maps).wf(),
            old(maps)@.contains(parent),
        ensures
            final(self).is_fit(),
            old(self).same_but_generators(final(self)),
            final(maps).wf(),
            final(maps)@.extends(old(maps)@),
            old(self).attempts_once(
                set as int,
                old(maps)@,
                parent,
                Attempt {
                    position: outcome.0,
                    candidate: outcome.1,
                    accepted: outcome.2,
                    furnished: outcome.3@,
                    generator: *final(self),
                    maps: final(maps)@,
                },
            ),
    {
        let position: Position =
            self.sub_maps_generator_sets[set].provides_position.provide_position();
        let map: TileMap = self.provide_map(set);
        let candidate: MapId = maps.insert(map);
        self.furnish(set, maps, candidate);
        let ghost furnished = maps@;
        let accepted: bool = self.judge(set, maps, position, candidate);
        if accepted {
            maps.add_sub_map(parent, position, candidate);
        } else {
            maps.invalidate(candidate);
        }
        proof {
            let attempt = Attempt {
                position,
                candidate,
                accepted,
                furnished,
                generator: *self,
                maps: maps@,
            };
            assert(old(self).sets()[set as int].same_but_generators(&self.sets()[set as int]));
            assert(old(self).furnishes(
                &attempt.generator,
                set as int,
                old(maps)@.inserted(map@),
                attempt.candidate,
                furnished,
            ));
            assert(old(self).provides_candidate(set as int, map));
            assert(old(self).judges(set as int, furnished, position, candidate, accepted));
            assert(old(self).attempts_once(set as int, old(maps)@, parent, attempt));
        }
        (position, candidate, accepted, Ghost(furnished))
    }

    /// The generator as it is when candidate number `k` of `attempts` is
    /// tried.
    pub open spec fn generator_at(&self, attempts: Seq<Attempt<Self>>, k: int) -> Self {
        if k == 0 {
            *self
        } else {
            attempts[k - 1].generator
        }
    }

    /// The registry as it is when candidate number `k` of `attempts` is
    /// tried, for a run that starts on the registry `before`.
    pub open spec fn registry_at(
        before: RegistryModel,
        attempts: Seq<Attempt<Self>>,
        k: int,
    ) -> RegistryModel {
        if k == 0 {
            before
        } else {
            attempts[k - 1].maps
        }
    }

    /// Whether candidate number `k` of `attempts` comes of one try on what
    /// the candidates before it left.
    pub open spec fn is_try(
        &self,
        set: int,
        before: RegistryModel,
        parent: MapId,
        attempts: Seq<Attempt<Self>>,
        k: int,
    ) -> bool {
        &&& Self::registry_at(before, attempts, k).wf()
        &&& self.generator_at(attempts, k).attempts_once(
            set,
            Self::registry_at(before, attempts, k),
            parent,
            attempts[k],
        )
        &&& attempts[k].maps.wf()
        &&& attempts[k].maps.extends(Self::registry_at(before, attempts, k))
    }

    /// Whether `attempts` can be the candidates that are tried, in turn, to
    /// place one map of set `set`: every candidate but the last is
    /// rejected, and the run ends with the first candidate that is accepted
    /// or, failing that, with candidate number `max_attempts`.
    pub open spec fn tries_in_turn(
        &self,
        set: int,
        before: RegistryModel,
        parent: MapId,
        attempts: Seq<Attempt<Self>>,
    ) -> bool {
        &&& attempts.len() <= self.max_attempts()
        &&& forall|k: int|
            0 <= k < attempts.len() ==> #[trigger] self.is_try(set, before, parent, attempts, k)
        &&& forall|k: int| 0 <= k < attempts.len() - 1 ==> !(#[trigger] attempts[k]).accepted
        &&& attempts.len() < self.max_attempts() ==> attempts.len() > 0 && attempts.last().accepted
    }

    /// Whether placing one map of set `set` in `parent` can turn the
    /// registry `before` into `maps` and the generator into `after`.
    pub open spec fn places_one(
        &self,
        after: &Self,
        set: int,
        before: RegistryModel,
        parent: MapId,
        maps: RegistryModel,
    ) -> bool {
        exists|attempts: Seq<Attempt<Self>>|
            {
                &&& #[trigger] self.tries_in_turn(set, before, parent, attempts)
                &&& *after == self.generator_at(attempts, attempts.len() as int)
                &&& maps == Self::registry_at(before, attempts, attempts.len() as int)
            }
    }

    /// Places one map of set `set` in `parent`, trying candidates until one
    /// is accepted or `max_attempts` have been rejected.
    fn place_one(&mut self, set: usize, maps: &mut MapRegistry, parent: MapId)
        requires
            old(self).is_fit(),
            set < old(self).sets().len(),
            old(maps).wf(),
            old(maps)@.contains(parent),
        ensures
            final(self).is_fit(),
            old(self).same_but_generators(final(self)),
            final(maps).wf(),
            final(maps)@.extends(old(maps)@),
            old(self).places_one(final(self), set as int, old(maps)@, parent, final(maps)@),
    {
        let ghost mut attempts: Seq<Attempt<Self>> = Seq::empty();
        let mut tried: usize = 0;
        let mut placed: bool = false;
        while tried < self.max_attempts && !placed
            invariant
                self.is_fit(),
                old(self).same_but_generators(self),
                set < old(self).sets().len(),
                old(maps)@.contains(parent),
                maps.wf(),
                maps@.extends(old(maps)@),
                tried <= self.max_attempts,
                attempts.len() == tried,
                forall|k: int|
                    0 <= k < attempts.len() ==> #[trigger] old(self).is_try(
                        set as int,
                        old(maps)@,
                        parent,
                        attempts,
                        k,
                    ),
                forall|k: int| 0 <= k < attempts.len() - 1 ==> !(#[trigger] attempts[k]).accepted,
                placed <==> attempts.len() > 0 && attempts.last().accepted,
                *self == old(self).generator_at(attempts, attempts.len() as int),
                maps@ == Self::registry_at(old(maps)@, attempts, attempts.len() as int),
            decreases self.max_attempts - tried + if placed { 0int } else { 1int },
        {
            let ghost generator_before = *self;
            let ghost maps_before = maps@;
            let outcome = self.attempt(set, maps, parent);
            proof {
                let attempt = Attempt {
                    position: outcome.0,
                    candidate: outcome.1,
                    accepted: outcome.2,
                    furnished: outcome.3@,
                    generator: *self,
                    maps: maps@,
                };
                let longer = attempts.push(attempt);
                assert forall|k: int| 0 <= k < longer.len() implies #[trigger] old(self).is_try(
                    set as int,
                    old(maps)@,
                    parent,
                    longer,
                    k,
                ) by {
                    if k < attempts.len() {
                        assert(old(self).is_try(set as int, old(maps)@, parent, attempts, k));
                        assert(longer[k] == attempts[k]);
                        if k > 0 {
                            assert(longer[k - 1] == attempts[k - 1]);
                        }
                    } else {
                        assert(old(self).generator_at(longer, k) == generator_before);
                        assert(Self::registry_at(old(maps)@, longer, k) == maps_before);
                    }
                }
                assert forall|k: int| 0 <= k < longer.len() - 1 implies !(#[trigger] longer[k]).accepted by {
                    assert(longer[k] == attempts[k]);
                }
                attempts = longer;
            }
            placed = outcome.2;
            tried = tried + 1;
        }
        proof {
            assert(old(self).tries_in_turn(set as int, old(maps)@, parent, attempts));
        }
    }

    /// Whether step `k` of a run of placements holds: placing one map of
    /// set `set` takes the generator and the registry from their states
    /// number `k` to their states number `k + 1`.
    pub open spec fn is_placement(
        set: int,
        parent: MapId,
        generators: Seq<Self>,
        registries: Seq<RegistryModel>,
        k: int,
    ) -> bool {
        &&& registries[k].wf()
        &&& generators[k].places_one(&generators[k + 1], set, registries[k], parent, registries[k + 1])
        &&& registries[k + 1].wf()
        &&& registries[k + 1].extends(registries[k])
    }

    /// Whether working off set `set` can turn the registry `before` into
    /// `maps` and the generator into `after`: the set says how many maps
    /// to place, and they are placed one after the other.
    pub open spec fn places_set(
        &self,
        after: &Self,
        set: int,
        before: RegistryModel,
        parent: MapId,
        maps: RegistryModel,
    ) -> bool {
        exists|count: usize, generators: Seq<Self>, registries: Seq<RegistryModel>|
            #![trigger
                self.sets()[set].provides_count.provides_count(count),
                Self::is_placement(set, parent, generators, registries, 0)]
            {
                &&& self.sets()[set].provides_count.provides_count(count)
                &&& generators.len() == count + 1
                &&& registries.len() == count + 1
                &&& generators.first() == *self
                &&& generators.last() == *after
                &&& registries.first() == before
                &&& registries.last() == maps
                &&& forall|k: int|
                    0 <= k < count ==> #[trigger] Self::is_placement(
                        set,
                        parent,
                        generators,
                        registries,
                        k,
                    )
            }
    }

    /// Works off set `set`: places as many maps in `parent` as the set asks
    /// for.
    fn place_set(&mut self, set: usize, maps: &mut MapRegistry, parent: MapId)
        requires
            old(self).is_fit(),
            set < old(self).sets().len(),
            old(maps).wf(),
            old(maps)@.contains(parent),
        ensures
            final(self).is_fit(),
            old(self).same_but_generators(final(self)),
            final(maps).wf(),
            final(maps)@.extends(old(maps)@),
            old(self).places_set(final(self), set as int, old(maps)@, parent, final(maps)@),
    {
        let count: usize = self.sub_maps_generator_sets[set].provides_count.provide_count();
        let ghost mut generators: Seq<Self> = seq![*self];
        let ghost mut registries: Seq<RegistryModel> = seq![maps@];
        let mut placed: usize = 0;
        while placed < count
            invariant
                self.is_fit(),
                old(self).same_but_generators(self),
                set < old(self).sets().len(),
                old(maps)@.contains(parent),
                maps.wf(),
                maps@.extends(old(maps)@),
                placed <= count,
                generators.len() == placed + 1,
                registries.len() == placed + 1,
                generators.first() == *old(self),
                generators.last() == *self,
                registries.first() == old(maps)@,
                registries.last() == maps@,
                forall|k: int|
                    0 <= k < placed ==> #[trigger] Self::is_placement(
                        set as int,
                        parent,
                        generators,
                        registries,
                        k,
                    ),
            decreases count - placed,
        {
            let ghost maps_before = maps@;
            self.place_one(set, maps, parent);
            proof {
                let longer_generators = generators.push(*self);
                let longer_registries = registries.push(maps@);
                assert forall|k: int| 0 <= k < placed + 1 implies #[trigger] Self::is_placement(
                    set as int,
                    parent,
                    longer_generators,
                    longer_registries,
                    k,
                ) by {
                    if k < placed {
                        assert(Self::is_placement(set as int, parent, generators, registries, k));
                        assert(longer_generators[k] == generators[k]);
                        assert(longer_generators[k + 1] == generators[k + 1]);
                        assert(longer_registries[k] == registries[k]);
                        assert(longer_registries[k + 1] == registries[k + 1]);
                    } else {
                        assert(longer_generators[k] == generators.last());
                        assert(longer_registries[k] == maps_before);
                    }
                }
                generators = longer_generators;
                registries = longer_registries;
            }
            placed = placed + 1;
        }
        proof {
            assert(old(self).sets()[set as int].provides_count.provides_count(count));
            if count > 0 {
                assert(Self::is_placement(set as int, parent, generators, registries, 0));
            }
        }
    }

    /// Whether step `set` of a run over the sets holds: working off set
    /// `set` takes the generator and the registry from their states number
    /// `set` to their states number `set + 1`.
    pub open spec fn is_set_placement(
        parent: MapId,
        generators: Seq<Self>,
        registries: Seq<RegistryModel>,
        set: int,
    ) -> bool {
        &&& registries[set].wf()
        &&& generators[set].places_set(
            &generators[set + 1],
            set,
            registries[set],
            parent,
            registries[set + 1],
        )
        &&& registries[set + 1].wf()
        &&& registries[set + 1].extends(registries[set])
    }

    /// Retrying until a candidate is valid. If the first `rejected`
    /// candidates for a map are judged invalid and the one after them is
    /// judged valid, and `max_attempts` allows that many tries, then the
    /// generator tries exactly `rejected + 1` candidates: it discards each
    /// of the first `rejected`, under handles that follow one another, and
    /// embeds the last one in the parent, at the position drawn for it, as
    /// the one map that the run embeds.
    pub proof fn lemma_retries_until_valid(
        &self,
        set: int,
        before: RegistryModel,
        parent: MapId,
        attempts: Seq<Attempt<Self>>,
        rejected: int,
    )
        requires
            before.wf(),
            before.contains(parent),
            self.tries_in_turn(set, before, parent, attempts),
            0 <= rejected < self.max_attempts(),
            forall|k: int| 0 <= k < attempts.len() && k < rejected ==> !(#[trigger] attempts[k]).accepted,
            attempts.len() > rejected ==> attempts[rejected].accepted,
        ensures
            attempts.len() == rejected + 1,
            forall|k: int|
                0 <= k < rejected ==> {
                    &&& !(#[trigger] attempts[k]).accepted
                    &&& attempts[k].maps.contains(attempts[k].candidate)
                    &&& attempts[k].maps.is_invalidated(attempts[k].candidate)
                    &&& attempts[k].candidate.index < attempts[k + 1].candidate.index
                },
            attempts[rejected].accepted,
            attempts[rejected].maps.contains(parent),
            attempts[rejected].maps.map(parent).sub_maps.len() > 0,
            attempts[rejected].maps.map(parent).sub_maps.last() == (SubMapRef {
                offset: attempts[rejected].position,
                target: attempts[rejected].candidate,
            }),
    {
        if attempts.len() < rejected + 1 {
            assert(attempts.len() > 0 && attempts.last().accepted);
            assert(!attempts[attempts.len() - 1].accepted);
        }
        if attempts.len() > rejected + 1 {
            assert(!attempts[rejected].accepted);
        }
        assert forall|k: int| 0 <= k <= rejected implies {
            &&& (#[trigger] attempts[k]).candidate == Self::registry_at(before, attempts, k).next_id()
            &&& attempts[k].maps.contains(attempts[k].candidate)
            &&& Self::registry_at(before, attempts, k).contains(parent)
            &&& attempts[k].maps.contains(parent)
            &&& !attempts[k].accepted ==> attempts[k].maps.is_invalidated(attempts[k].candidate)
            &&& attempts[k].accepted ==> attempts[k].maps.map(parent).sub_maps.len() > 0
                && attempts[k].maps.map(parent).sub_maps.last() == (SubMapRef {
                offset: attempts[k].position,
                target: attempts[k].candidate,
            })
        } by {
            self.lemma_attempt_keeps_parent(set, before, parent, attempts, k);
        }
        assert forall|k: int| 0 <= k < rejected implies {
            &&& !(#[trigger] attempts[k]).accepted
            &&& attempts[k].maps.contains(attempts[k].candidate)
            &&& attempts[k].maps.is_invalidated(attempts[k].candidate)
            &&& attempts[k].candidate.index < attempts[k + 1].candidate.index
        } by {
            assert(attempts[k + 1].candidate == Self::registry_at(before, attempts, k + 1).next_id());
            assert(self.is_try(set, before, parent, attempts, k));
        }
    }

    /// What one try leaves behind: the candidate has the handle that was
    /// next when it was made, the parent is still registered, a rejected
    /// candidate is discarded, and an accepted one is the last map embedded
    /// in the parent.
    proof fn lemma_attempt_keeps_parent(
        &self,
        set: int,
        before: RegistryModel,
        parent: MapId,
        attempts: Seq<Attempt<Self>>,
        k: int,
    )
        requires
            before.wf(),
            before.contains(parent),
            0 <= k < attempts.len(),
            forall|j: int|
                0 <= j < attempts.len() ==> #[trigger] self.is_try(set, before, parent, attempts, j),
        ensures
            attempts[k].candidate == Self::registry_at(before, attempts, k).next_id(),
            attempts[k].maps.contains(attempts[k].candidate),
            Self::registry_at(before, attempts, k).contains(parent),
            attempts[k].maps.contains(parent),
            !attempts[k].accepted ==> attempts[k].maps.is_invalidated(attempts[k].candidate),
            attempts[k].accepted ==> attempts[k].maps.map(parent).sub_maps.len() > 0
                && attempts[k].maps.map(parent).sub_maps.last() == (SubMapRef {
                offset: attempts[k].position,
                target: attempts[k].candidate,
            }),
        decreases k,
    {
        if k > 0 {
            self.lemma_attempt_keeps_parent(set, before, parent, attempts, k - 1);
        }
        assert(self.is_try(set, before, parent, attempts, k));
        let start = Self::registry_at(before, attempts, k);
        let generator = self.generator_at(attempts, k);
        let attempt = attempts[k];
        let furnished = attempt.furnished;
        let map = choose|map: TileMap|
            generator.provides_candidate(set, map) && #[trigger] generator.furnishes(
                &attempt.generator,
                set,
                start.inserted(map@),
                attempt.candidate,
                furnished,
            );
        assert(furnished.len() >= start.len() + 1);
    }

    /// Whether the furnishing of candidate number `k` spared the parent and
    /// the discard flags: when the candidate was judged, the parent embedded
    /// what it had embedded when the candidate was tried, the maps that the
    /// registry held then were discarded or not as they had been, and the
    /// candidate was not discarded.
    pub open spec fn furnishing_spares(
        before: RegistryModel,
        parent: MapId,
        attempts: Seq<Attempt<Self>>,
        k: int,
    ) -> bool {
        let start = Self::registry_at(before, attempts, k);
        let furnished = attempts[k].furnished;
        &&& furnished.map(parent).sub_maps == start.map(parent).sub_maps
        &&& !furnished.is_invalidated(attempts[k].candidate)
        &&& forall|id: MapId|
            start.contains(id) ==> #[trigger] furnished.is_invalidated(id) == start.is_invalidated(
                id,
            )
    }

    /// What rejected candidates leave behind where the furnishing spares
    /// the parent and the discard flags: when candidate number `k` is tried
    /// after `k` rejections, the parent embeds what it embedded at the
    /// start, the maps of the start are discarded or not as they were, and
    /// each of the rejected candidates, entered after the start, is
    /// discarded.
    proof fn lemma_rejected_tries_spare(
        &self,
        set: int,
        before: RegistryModel,
        parent: MapId,
        attempts: Seq<Attempt<Self>>,
        k: int,
    )
        requires
            before.wf(),
            before.contains(parent),
            0 <= k <= attempts.len(),
            forall|j: int|
                0 <= j < attempts.len() ==> #[trigger] self.is_try(set, before, parent, attempts, j),
            forall|j: int| 0 <= j < k ==> !(#[trigger] attempts[j]).accepted,
            forall|j: int|
                0 <= j < k ==> #[trigger] Self::furnishing_spares(before, parent, attempts, j),
        ensures
            ({
                let start = Self::registry_at(before, attempts, k);
                &&& start.contains(parent)
                &&& before.len() + k <= start.len()
                &&& start.map(parent).sub_maps == before.map(parent).sub_maps
                &&& forall|id: MapId|
                    before.contains(id) ==> #[trigger] start.is_invalidated(id)
                        == before.is_invalidated(id)
                &&& forall|j: int|
                    0 <= j < k ==> {
                        &&& start.contains((#[trigger] attempts[j]).candidate)
                        &&& start.is_invalidated(attempts[j].candidate)
                        &&& attempts[j].candidate.index >= before.len()
                    }
            }),
        decreases k,
    {
        if k > 0 {
            let step = k - 1;
            self.lemma_rejected_tries_spare(set, before, parent, attempts, step);
            self.lemma_attempt_keeps_parent(set, before, parent, attempts, step);
            let earlier = Self::registry_at(before, attempts, step);
            let start = Self::registry_at(before, attempts, k);
            let attempt = attempts[step];
            let furnished = attempt.furnished;
            assert(self.is_try(set, before, parent, attempts, step));
            assert(Self::furnishing_spares(before, parent, attempts, step));
            assert(!attempt.accepted);
            assert(start == furnished.invalidated(attempt.candidate));
            assert(attempt.candidate.index == earlier.len());
            assert(attempt.candidate != parent);
            assert forall|id: MapId| before.contains(id) implies #[trigger] start.is_invalidated(
                id,
            ) == before.is_invalidated(id) by {
                assert(earlier.contains(id));
                assert(furnished.is_invalidated(id) == earlier.is_invalidated(id));
            }
            assert forall|j: int| 0 <= j < k implies {
                &&& start.contains((#[trigger] attempts[j]).candidate)
                &&& start.is_invalidated(attempts[j].candidate)
                &&& attempts[j].candidate.index >= before.len()
            } by {
                if j < step {
                    assert(earlier.contains(attempts[j].candidate));
                    assert(furnished.is_invalidated(attempts[j].candidate)
                        == earlier.is_invalidated(attempts[j].candidate));
                }
            }
        }
    }

    /// Retrying until a candidate is valid embeds exactly one map. Let the
    /// first `rejected` candidates for a map be judged invalid and the one
    /// after them valid, let `max_attempts` allow that many tries, and let
    /// the furnishing of each candidate spare the parent and the discard
    /// flags. Then one position is drawn and one map made for each of the
    /// `rejected + 1` candidates; each of the first `rejected` is discarded
    /// and none of them is embedded; the last one is embedded at the position
    /// drawn for it and is not discarded; the parent embeds what it embedded
    /// before and that one map; and no map that the registry held before is
    /// discarded on that account.
    pub proof fn lemma_retry_embeds_one(
        &self,
        set: int,
        before: RegistryModel,
        parent: MapId,
        attempts: Seq<Attempt<Self>>,
        rejected: int,
    )
        requires
            before.wf(),
            before.contains(parent),
            self.tries_in_turn(set, before, parent, attempts),
            0 <= rejected < self.max_attempts(),
            forall|k: int| 0 <= k < attempts.len() && k < rejected ==> !(#[trigger] attempts[k]).accepted,
            attempts.len() > rejected ==> attempts[rejected].accepted,
            forall|k: int|
                0 <= k < attempts.len() ==> #[trigger] Self::furnishing_spares(
                    before,
                    parent,
                    attempts,
                    k,
                ),
        ensures
            attempts.len() == rejected + 1,
            ({
                let last = attempts[rejected];
                let maps = last.maps;
                let embedded = maps.map(parent).sub_maps;
                &&& embedded == before.map(parent).sub_maps.push(
                    SubMapRef { offset: last.position, target: last.candidate },
                )
                &&& maps.contains(last.candidate)
                &&& !maps.is_invalidated(last.candidate)
                &&& forall|id: MapId|
                    before.contains(id) ==> #[trigger] maps.is_invalidated(id)
                        == before.is_invalidated(id)
                &&& forall|k: int|
                    0 <= k < rejected ==> {
                        &&& !before.contains((#[trigger] attempts[k]).candidate)
                        &&& attempts[k].candidate != last.candidate
                        &&& maps.is_invalidated(attempts[k].candidate)
                    }
                &&& forall|j: int, k: int|
                    0 <= j < embedded.len() && 0 <= k < rejected ==> (#[trigger] embedded[j]).target
                        != (#[trigger] attempts[k]).candidate
            }),
    {
        self.lemma_retries_until_valid(set, before, parent, attempts, rejected);
        self.lemma_rejected_tries_spare(set, before, parent, attempts, rejected);
        self.lemma_attempt_keeps_parent(set, before, parent, attempts, rejected);
        let start = Self::registry_at(before, attempts, rejected);
        let last = attempts[rejected];
        let furnished = last.furnished;
        let maps = last.maps;
        let embedded = maps.map(parent).sub_maps;
        assert(self.is_try(set, before, parent, attempts, rejected));
        assert(Self::furnishing_spares(before, parent, attempts, rejected));
        assert(last.candidate.index == start.len());
        assert(last.candidate != parent);
        assert(furnished.len() == maps.len());
        assert forall|id: MapId| before.contains(id) implies #[trigger] maps.is_invalidated(id)
            == before.is_invalidated(id) by {
            assert(start.contains(id));
            assert(furnished.is_invalidated(id) == start.is_invalidated(id));
        }
        assert forall|k: int| 0 <= k < rejected implies {
            &&& !before.contains((#[trigger] attempts[k]).candidate)
            &&& attempts[k].candidate != last.candidate
            &&& maps.is_invalidated(attempts[k].candidate)
        } by {
            assert(start.contains(attempts[k].candidate));
            assert(furnished.is_invalidated(attempts[k].candidate) == start.is_invalidated(
                attempts[k].candidate,
            ));
        }
        assert(before.map(parent).refers_within(before.len()));
        assert forall|j: int, k: int|
            0 <= j < embedded.len() && 0 <= k < rejected implies (#[trigger] embedded[j]).target
                != (#[trigger] attempts[k]).candidate by {
            if j < before.map(parent).sub_maps.len() {
                assert(embedded[j] == before.map(parent).sub_maps[j]);
                assert(before.map(parent).sub_maps[j].target.index < before.len());
            }
        }
    }
}

impl<
    TProvidesCount,
    TProvidesPosition,
    TMapProvider,
    TDunGen,
    TValidityCheck,
    TGlobalDunGen,
> DoesDunGen for SubMapGenerator<
    TProvidesCount,
    TProvidesPosition,
    TMapProvider,
    TDunGen,
    TValidityCheck,
    TGlobalDunGen,
> where
    TProvidesCount: ProvidesCount,
    TProvidesPosition: ProvidesPosition,
    TMapProvider: Fn() -> TileMap,
    TDunGen: DoesDunGen,
    TValidityCheck: Fn(&MapRegistry, Position, MapId) -> bool,
    TGlobalDunGen: DoesDunGen,
 {
    open spec fn wf(&self) -> bool {
        self.is_fit()
    }

    open spec fn effect(
        &self,
        after: &Self,
        before: RegistryModel,
        map_id: MapId,
        maps: RegistryModel,
    ) -> bool {
        exists|generators: Seq<Self>, registries: Seq<RegistryModel>|
            #![trigger generators.len(), registries.len()]
            {
                &&& generators.len() == self.sets().len() + 1
                &&& registries.len() == self.sets().len() + 1
                &&& generators.first() == *self
                &&& generators.last() == *after
                &&& registries.first() == before
                &&& registries.last() == maps
                &&& forall|set: int|
                    0 <= set < self.sets().len() ==> #[trigger] Self::is_set_placement(
                        map_id,
                        generators,
                        registries,
                        set,
                    )
            }
    }

    fn dun_gen_map(&mut self, maps: &mut MapRegistry, map_id: MapId) {
        let ghost mut generators: Seq<Self> = seq![*self];
        let ghost mut registries: Seq<RegistryModel> = seq![maps@];
        let sets: usize = self.sub_maps_generator_sets.len();
        let mut set: usize = 0;
        while set < sets
            invariant
                self.is_fit(),
                old(self).same_but_generators(self),
                sets == old(self).sets().len(),
                old(maps)@.contains(map_id),
                maps.wf(),
                maps@.extends(old(maps)@),
                set <= sets,
                generators.len() == set + 1,
                registries.len() == set + 1,
                generators.first() == *old(self),
                generators.last() == *self,
                registries.first() == old(maps)@,
                registries.last() == maps@,
                forall|k: int|
                    0 <= k < set ==> #[trigger] Self::is_set_placement(
                        map_id,
                        generators,
                        registries,
                        k,
                    ),
            decreases sets - set,
        {
            let ghost maps_before = maps@;
            self.place_set(set, maps, map_id);
            proof {
                let longer_generators = generators.push(*self);
                let longer_registries = registries.push(maps@);
                assert forall|k: int| 0 <= k < set + 1 implies #[trigger] Self::is_set_placement(
                    map_id,
                    longer_generators,
                    longer_registries,
                    k,
                ) by {
                    if k < set {
                        assert(Self::is_set_placement(map_id, generators, registries, k));
                        assert(longer_generators[k] == generators[k]);
                        assert(longer_generators[k + 1] == generators[k + 1]);
                        assert(longer_registries[k] == registries[k]);
                        assert(longer_registries[k + 1] == registries[k + 1]);
                    } else {
                        assert(longer_generators[k] == generators.last());
                        assert(longer_registries[k] == maps_before);
                    }
                }
                generators = longer_generators;
                registries = longer_registries;
            }
            set = set + 1;
        }
        proof {
            assert(generators.len() == old(self).sets().len() + 1);
            assert(registries.len() == old(self).sets().len() + 1);
        }
    }
}

} // verus!
