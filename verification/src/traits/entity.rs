//! Game entities: an id, a type, and the features composed into them.
use vstd::prelude::*;
use crate::text::{push_str, string_of};
use crate::traits::composition::{AnyFeature, DialogFeature, Feature, FeatureContainer, FeatureKind, FightFeature, MovableFeature, ShopFeature, seq_has_kind, seq_lookup};
use crate::world::npc::Npc;
use crate::util::percent_of;

verus! {

/// The types of entities.
#[derive(Clone, Copy, Debug, PartialEq, Eq, Structural)]
pub enum EntityType {
    Npc,
    Player,
    Item,
    Room,
}

/// A run-time game object with its features.
pub struct GameEntity {
    pub id: String,
    pub entity_type: EntityType,
    pub features: FeatureContainer,
}

/// The fight feature of a feature list, if any.
pub open spec fn fight_of(s: Seq<AnyFeature>) -> Option<FightFeature> {
    match seq_lookup(s, FeatureKind::Fight) {
        Some(AnyFeature::Fight(f)) => Some(f),
        _ => None,
    }
}

/// The movement feature of a feature list, if any.
pub open spec fn movable_of(s: Seq<AnyFeature>) -> Option<MovableFeature> {
    match seq_lookup(s, FeatureKind::Movable) {
        Some(AnyFeature::Movable(f)) => Some(f),
        _ => None,
    }
}

impl GameEntity {
    /// An entity without features.
    pub fn new(id: String, entity_type: EntityType) -> (r: Self)
        ensures
            r.id == id,
            r.entity_type == entity_type,
            r.features@ == Seq::<AnyFeature>::empty(),
    {
        GameEntity { id, entity_type, features: FeatureContainer::new() }
    }

    /// An entity for an NPC: it fights with the NPC's stats, trades when the
    /// NPC has a shop, talks (dialogue `dialog_<id>`) when the NPC has
    /// dialogue, and can move.
    pub fn from_npc(npc: &Npc) -> (r: Self)
        ensures
            r.id == npc.id,
            r.entity_type == EntityType::Npc,
            seq_lookup(r.features@, FeatureKind::Fight) == Some(
                AnyFeature::Fight(FightFeature { hp: npc.hp, hp_max: npc.hp_max, attack: npc.attack, defense: npc.defense, level: 1, exp: 0 }),
            ),
            seq_has_kind(r.features@, FeatureKind::Shop) == npc.shop.is_some(),
            npc.shop matches Some(sid) ==> seq_lookup(r.features@, FeatureKind::Shop) == Some(
                AnyFeature::Shop(ShopFeature { shop_id: sid, buy_rate: 100, sell_rate: 50 }),
            ),
            seq_has_kind(r.features@, FeatureKind::Dialog) == (npc.dialogs@.len() > 0),
            seq_lookup(r.features@, FeatureKind::Dialog) matches Some(AnyFeature::Dialog(d)) ==> d.dialog_id@ == "dialog_"@ + npc.id@,
            seq_lookup(r.features@, FeatureKind::Movable) == Some(AnyFeature::Movable(MovableFeature { can_move: true, speed: 100 })),
            r.features@.len() == 2 + (if npc.shop.is_some() { 1int } else { 0int }) + (if npc.dialogs@.len() > 0 { 1int } else { 0int }),
    {
        let mut e = Self::new(npc.id.clone(), EntityType::Npc);
        e.features.add(FightFeature::new(npc.hp, npc.hp_max, npc.attack, npc.defense));
        let ghost s1 = e.features@;
        match &npc.shop {
            Some(shop_id) => {
                e.features.add(ShopFeature::new(shop_id.clone()));
            },
            None => {},
        }
        let ghost s2 = e.features@;
        if npc.dialogs.len() > 0 {
            let mut did = string_of("dialog_");
            push_str(&mut did, npc.id.as_str());
            e.features.add(DialogFeature::new(did));
        }
        let ghost s3 = e.features@;
        e.features.add(MovableFeature::new());
        proof {
            assert(!seq_has_kind(Seq::<AnyFeature>::empty(), FeatureKind::Shop));
            assert(!seq_has_kind(Seq::<AnyFeature>::empty(), FeatureKind::Dialog));
            assert(!seq_has_kind(Seq::<AnyFeature>::empty(), FeatureKind::Movable));
            assert(!seq_has_kind(Seq::<AnyFeature>::empty(), FeatureKind::Fight));
            assert(seq_lookup(s1, FeatureKind::Shop) is None);
            assert(seq_lookup(s1, FeatureKind::Dialog) is None);
            assert(seq_lookup(s1, FeatureKind::Movable) is None);
            assert(seq_lookup(s2, FeatureKind::Dialog) is None);
            assert(seq_lookup(s2, FeatureKind::Movable) is None);
            assert(seq_lookup(s3, FeatureKind::Movable) is None);
        }
        e
    }

    /// The entity has a feature of type `F`.
    pub fn has_feature<F: Feature>(&self) -> (r: bool)
        ensures
            r == seq_has_kind(self.features@, F::feature_kind()),
    {
        self.features.has::<F>()
    }

    /// The entity's feature of type `F`, if any.
    pub fn get_feature<F: Feature>(&self) -> (r: Option<&F>)
        ensures
            r matches Some(f) ==> seq_lookup(self.features@, F::feature_kind()) == Some(f.wrapped()),
            r is None <==> !seq_has_kind(self.features@, F::feature_kind()),
    {
        self.features.get::<F>()
    }

    /// Adds a feature, replacing the one of the same kind.
    pub fn add_feature<F: Feature>(&mut self, feature: F)
        ensures
            seq_lookup(final(self).features@, F::feature_kind()) == Some(feature.wrapped()),
            forall|k: FeatureKind| k != F::feature_kind() ==> seq_lookup(final(self).features@, k) == seq_lookup(old(self).features@, k),
            final(self).id == old(self).id,
    {
        self.features.add(feature);
    }

    /// Removes the feature of type `F`; reports whether there was one.
    pub fn remove_feature<F: Feature>(&mut self) -> (r: bool)
        ensures
            r == seq_has_kind(old(self).features@, F::feature_kind()),
            !seq_has_kind(final(self).features@, F::feature_kind()),
            forall|k: FeatureKind| k != F::feature_kind() ==> seq_lookup(final(self).features@, k) == seq_lookup(old(self).features@, k),
            final(self).id == old(self).id,
    {
        self.features.remove::<F>(self.id.as_str())
    }

    /// The entity can fight.
    pub fn can_fight(&self) -> (r: bool)
        ensures
            r == seq_has_kind(self.features@, FeatureKind::Fight),
    {
        self.has_feature::<FightFeature>()
    }

    /// The entity can move: it has a movement feature that allows it.
    pub fn can_move(&self) -> (r: bool)
        ensures
            r == (movable_of(self.features@) matches Some(m) && m.can_move),
    {
        match self.get_feature::<MovableFeature>() {
            Some(m) => m.can_move,
            None => false,
        }
    }

    /// The entity has a shop.
    pub fn has_shop(&self) -> (r: bool)
        ensures
            r == seq_has_kind(self.features@, FeatureKind::Shop),
    {
        self.has_feature::<ShopFeature>()
    }

    /// The entity can talk.
    pub fn can_talk(&self) -> (r: bool)
        ensures
            r == seq_has_kind(self.features@, FeatureKind::Dialog),
    {
        self.has_feature::<DialogFeature>()
    }

    /// HP in percent when the entity can fight, 0 otherwise.
    pub fn hp_percent(&self) -> (r: i32)
        requires
            fight_of(self.features@) matches Some(f) ==> -21474836 <= f.hp <= 21474836,
        ensures
            r == match fight_of(self.features@) {
                Some(f) => percent_of(f.hp as int, f.hp_max as int),
                None => 0,
            },
    {
        match self.get_feature::<FightFeature>() {
            Some(f) => f.hp_percent(),
            None => 0,
        }
    }

    /// Alive unless a fight feature says its HP is gone.
    pub fn is_alive(&self) -> (r: bool)
        ensures
            r == match fight_of(self.features@) {
                Some(f) => f.hp > 0,
                None => true,
            },
    {
        match self.get_feature::<FightFeature>() {
            Some(f) => f.is_alive(),
            None => true,
        }
    }
}

} // verus!
