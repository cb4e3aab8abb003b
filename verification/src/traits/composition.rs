//! Feature composition: an entity gathers features (fight, inventory,
//! dialogue, shop, movement) at run time, at most one of each kind.
use vstd::prelude::*;
use crate::text::{push_str, push_u64, string_of, seq_contains, str_contains, nat_digits};
use crate::util::{percent_i32, percent_of, find_str, is_first_str, has_str};

verus! {

/// The kinds of features.
#[derive(Debug, Clone, Copy, PartialEq, Eq, Structural)]
pub enum FeatureKind {
    Fight,
    Inventory,
    Dialog,
    Shop,
    Movable,
}

/// A feature of any kind.
#[derive(Debug, Clone)]
pub enum AnyFeature {
    Fight(FightFeature),
    Inventory(InventoryFeature),
    Dialog(DialogFeature),
    Shop(ShopFeature),
    Movable(MovableFeature),
}

/// The kind of a feature.
pub open spec fn kind_of(a: AnyFeature) -> FeatureKind {
    match a {
        AnyFeature::Fight(_) => FeatureKind::Fight,
        AnyFeature::Inventory(_) => FeatureKind::Inventory,
        AnyFeature::Dialog(_) => FeatureKind::Dialog,
        AnyFeature::Shop(_) => FeatureKind::Shop,
        AnyFeature::Movable(_) => FeatureKind::Movable,
    }
}

/// The name of the type of a feature kind.
pub open spec fn kind_name(k: FeatureKind) -> Seq<char> {
    match k {
        FeatureKind::Fight => "FightFeature"@,
        FeatureKind::Inventory => "InventoryFeature"@,
        FeatureKind::Dialog => "DialogFeature"@,
        FeatureKind::Shop => "ShopFeature"@,
        FeatureKind::Movable => "MovableFeature"@,
    }
}

/// No two features of `s` share a kind.
pub open spec fn kinds_unique(s: Seq<AnyFeature>) -> bool {
    forall|i: int, j: int| 0 <= i < j < s.len() ==> kind_of(#[trigger] s[i]) != kind_of(#[trigger] s[j])
}

/// Some feature of `s` has kind `k`.
pub open spec fn seq_has_kind(s: Seq<AnyFeature>, k: FeatureKind) -> bool {
    exists|i: int| 0 <= i < s.len() && kind_of(#[trigger] s[i]) == k
}

/// The feature of kind `k` in `s`, if any.
pub open spec fn seq_lookup(s: Seq<AnyFeature>, k: FeatureKind) -> Option<AnyFeature> {
    if seq_has_kind(s, k) {
        Some(s[choose|i: int| 0 <= i < s.len() && kind_of(#[trigger] s[i]) == k])
    } else {
        None
    }
}

/// In a sequence with unique kinds, the lookup of an element's kind yields it.
pub proof fn lemma_lookup_at(s: Seq<AnyFeature>, i: int)
    requires
        kinds_unique(s),
        0 <= i < s.len(),
    ensures
        seq_has_kind(s, kind_of(s[i])),
        seq_lookup(s, kind_of(s[i])) == Some(s[i]),
{
    let k = kind_of(s[i]);
    assert(0 <= i < s.len() && kind_of(s[i]) == k);
    let j = choose|j: int| 0 <= j < s.len() && kind_of(#[trigger] s[j]) == k;
    if j != i {
        if j < i {
            assert(kind_of(s[j]) != kind_of(s[i]));
        } else {
            assert(kind_of(s[i]) != kind_of(s[j]));
        }
    }
}

/// A feature type: it knows its kind and converts to and from `AnyFeature`.
pub trait Feature: Sized {
    /// The kind of this feature type.
    spec fn feature_kind() -> FeatureKind;

    /// This feature as a feature of any kind.
    spec fn wrapped(self) -> AnyFeature;

    /// Wrapping keeps the kind and loses nothing.
    proof fn lemma_wrapped(x: Self, y: Self)
        ensures
            kind_of(x.wrapped()) == Self::feature_kind(),
            x.wrapped() == y.wrapped() ==> x == y,
    ;

    /// The kind of this feature type.
    fn kind() -> (k: FeatureKind)
        ensures
            k == Self::feature_kind(),
    ;

    /// This feature as a feature of any kind.
    fn into_any(self) -> (a: AnyFeature)
        ensures
            a == self.wrapped(),
    ;

    /// The feature held by `a`, when it is of this type.
    fn from_any(a: &AnyFeature) -> (r: Option<&Self>)
        ensures
            (r is Some) == (kind_of(*a) == Self::feature_kind()),
            r matches Some(f) ==> f.wrapped() == *a,
    ;

    /// The feature's type name.
    fn name(&self) -> (r: &'static str)
        ensures
            r@ == kind_name(Self::feature_kind()),
    ;

    /// A description of the feature.
    fn description(&self) -> &'static str;
}

impl AnyFeature {
    /// The kind of this feature.
    pub fn kind(&self) -> (k: FeatureKind)
        ensures
            k == kind_of(*self),
    {
        match self {
            AnyFeature::Fight(_) => FeatureKind::Fight,
            AnyFeature::Inventory(_) => FeatureKind::Inventory,
            AnyFeature::Dialog(_) => FeatureKind::Dialog,
            AnyFeature::Shop(_) => FeatureKind::Shop,
            AnyFeature::Movable(_) => FeatureKind::Movable,
        }
    }

    /// The type name of this feature.
    pub fn name(&self) -> (r: &'static str)
        ensures
            r@ == kind_name(kind_of(*self)),
    {
        match self {
            AnyFeature::Fight(_) => "FightFeature",
            AnyFeature::Inventory(_) => "InventoryFeature",
            AnyFeature::Dialog(_) => "DialogFeature",
            AnyFeature::Shop(_) => "ShopFeature",
            AnyFeature::Movable(_) => "MovableFeature",
        }
    }
}

/// The features of one object, at most one of each kind.
pub struct FeatureContainer {
    features: Vec<AnyFeature>,
}

impl View for FeatureContainer {
    type V = Seq<AnyFeature>;

    closed spec fn view(&self) -> Seq<AnyFeature> {
        self.features@
    }
}

impl Default for FeatureContainer {
    fn default() -> (r: Self)
        ensures
            r@ == Seq::<AnyFeature>::empty(),
    {
        Self::new()
    }
}

impl FeatureContainer {
    #[verifier::type_invariant]
    closed spec fn inv(self) -> bool {
        kinds_unique(self.features@)
    }

    /// An empty container.
    pub fn new() -> (r: Self)
        ensures
            r@ == Seq::<AnyFeature>::empty(),
    {
        FeatureContainer { features: Vec::new() }
    }

    fn index_of(&self, k: FeatureKind) -> (r: Option<usize>)
        ensures
            r matches Some(i) ==> i < self@.len() && kind_of(self@[i as int]) == k,
            r is None ==> !seq_has_kind(self@, k),
    {
        let mut i: usize = 0;
        while i < self.features.len()
            invariant
                i <= self.features@.len(),
                forall|j: int| 0 <= j < i ==> kind_of(#[trigger] self.features@[j]) != k,
            decreases self.features.len() - i,
        {
            if self.features[i].kind() == k {
                return Some(i);
            }
            i = i + 1;
        }
        None
    }

    /// Adds a feature of any kind, replacing the one of the same kind.
    pub fn add_box(&mut self, feature: AnyFeature)
        ensures
            seq_lookup(final(self)@, kind_of(feature)) == Some(feature),
            forall|k: FeatureKind| k != kind_of(feature) ==> seq_lookup(final(self)@, k) == seq_lookup(old(self)@, k),
            final(self)@.len() == old(self)@.len() + if seq_has_kind(old(self)@, kind_of(feature)) { 0int } else { 1int },
    {
        proof {
            use_type_invariant(&*self);
        }
        let ghost s0 = self@;
        let k = feature.kind();
        match self.index_of(k) {
            Some(i) => {
                let mut v: Vec<AnyFeature> = Vec::new();
                std::mem::swap(&mut v, &mut self.features);
                v.set(i, feature);
                self.features = v;
                proof {
                    let s1 = s0.update(i as int, feature);
                    assert(self@ == s1);
                    assert(seq_has_kind(s0, k)) by {
                        assert(kind_of(s0[i as int]) == k);
                    }
                    assert(kinds_unique(s1));
                    lemma_lookup_at(s1, i as int);
                    assert forall|k2: FeatureKind| k2 != k implies seq_lookup(s1, k2) == seq_lookup(s0, k2) by {
                        if seq_has_kind(s0, k2) {
                            let j = choose|j: int| 0 <= j < s0.len() && kind_of(#[trigger] s0[j]) == k2;
                            lemma_lookup_at(s0, j);
                            assert(s1[j] == s0[j]);
                            lemma_lookup_at(s1, j);
                        } else {
                            assert forall|j: int| 0 <= j < s1.len() implies kind_of(#[trigger] s1[j]) != k2 by {
                                if j != i {
                                    assert(s1[j] == s0[j]);
                                }
                            }
                        }
                    }
                }
            },
            None => {
                let mut v: Vec<AnyFeature> = Vec::new();
                std::mem::swap(&mut v, &mut self.features);
                v.push(feature);
                proof {
                    assert(kinds_unique(v@)) by {
                        let s1 = s0.push(feature);
                        assert(v@ == s1);
                        assert forall|a: int, b: int| 0 <= a < b < s1.len() implies kind_of(#[trigger] s1[a]) != kind_of(#[trigger] s1[b]) by {
                            if b == s0.len() {
                                assert(s1[a] == s0[a]);
                            } else {
                                assert(s1[a] == s0[a] && s1[b] == s0[b]);
                            }
                        }
                    }
                }
                self.features = v;
                proof {
                    let s1 = s0.push(feature);
                    assert(self@ == s1);
                    assert(kinds_unique(s1)) by {
                        assert forall|a: int, b: int| 0 <= a < b < s1.len() implies kind_of(#[trigger] s1[a]) != kind_of(#[trigger] s1[b]) by {
                            if b == s0.len() {
                                assert(s1[a] == s0[a]);
                            } else {
                                assert(s1[a] == s0[a] && s1[b] == s0[b]);
                            }
                        }
                    }
                    lemma_lookup_at(s1, s0.len() as int);
                    assert forall|k2: FeatureKind| k2 != k implies seq_lookup(s1, k2) == seq_lookup(s0, k2) by {
                        if seq_has_kind(s0, k2) {
                            let j = choose|j: int| 0 <= j < s0.len() && kind_of(#[trigger] s0[j]) == k2;
                            lemma_lookup_at(s0, j);
                            assert(s1[j] == s0[j]);
                            lemma_lookup_at(s1, j);
                        } else {
                            assert forall|j: int| 0 <= j < s1.len() implies kind_of(#[trigger] s1[j]) != k2 by {
                                if j < s0.len() {
                                    assert(s1[j] == s0[j]);
                                }
                            }
                        }
                    }
                }
            },
        }
    }

    /// Adds a feature, replacing the one of the same kind.
    pub fn add<F: Feature>(&mut self, feature: F)
        ensures
            seq_lookup(final(self)@, F::feature_kind()) == Some(feature.wrapped()),
            forall|k: FeatureKind| k != F::feature_kind() ==> seq_lookup(final(self)@, k) == seq_lookup(old(self)@, k),
            final(self)@.len() == old(self)@.len() + if seq_has_kind(old(self)@, F::feature_kind()) { 0int } else { 1int },
    {
        proof {
            F::lemma_wrapped(feature, feature);
        }
        let a = feature.into_any();
        self.add_box(a);
    }

    /// Removes the feature of kind `k`; reports whether there was one.
    pub fn remove_kind(&mut self, k: FeatureKind) -> (r: bool)
        ensures
            r == seq_has_kind(old(self)@, k),
            !seq_has_kind(final(self)@, k),
            forall|k2: FeatureKind| k2 != k ==> seq_lookup(final(self)@, k2) == seq_lookup(old(self)@, k2),
            final(self)@.len() == old(self)@.len() - if r { 1int } else { 0int },
    {
        proof {
            use_type_invariant(&*self);
        }
        let ghost s0 = self@;
        match self.index_of(k) {
            Some(i) => {
                let mut v: Vec<AnyFeature> = Vec::new();
                std::mem::swap(&mut v, &mut self.features);
                v.remove(i);
                proof {
                    let s1 = s0.remove(i as int);
                    assert(v@ == s1);
                    assert forall|a: int, b: int| 0 <= a < b < s1.len() implies kind_of(#[trigger] s1[a]) != kind_of(#[trigger] s1[b]) by {
                        let aa = if a < i { a } else { a + 1 };
                        let bb = if b < i { b } else { b + 1 };
                        assert(s1[a] == s0[aa] && s1[b] == s0[bb]);
                    }
                }
                self.features = v;
                proof {
                    let s1 = s0.remove(i as int);
                    assert(self@ == s1);
                    assert(seq_has_kind(s0, k)) by {
                        assert(kind_of(s0[i as int]) == k);
                    }
                    assert forall|j: int| 0 <= j < s1.len() implies kind_of(#[trigger] s1[j]) != k by {
                        if j < i {
                            assert(s1[j] == s0[j]);
                        } else {
                            assert(s1[j] == s0[j + 1]);
                        }
                    }
                    assert forall|k2: FeatureKind| k2 != k implies seq_lookup(s1, k2) == seq_lookup(s0, k2) by {
                        if seq_has_kind(s0, k2) {
                            let j = choose|j: int| 0 <= j < s0.len() && kind_of(#[trigger] s0[j]) == k2;
                            lemma_lookup_at(s0, j);
                            assert(j != i);
                            let jj = if j < i { j } else { j - 1 };
                            assert(s1[jj] == s0[j]);
                            lemma_lookup_at(s1, jj);
                        } else {
                            assert forall|j: int| 0 <= j < s1.len() implies kind_of(#[trigger] s1[j]) != k2 by {
                                if j < i {
                                    assert(s1[j] == s0[j]);
                                } else {
                                    assert(s1[j] == s0[j + 1]);
                                }
                            }
                        }
                    }
                }
                true
            },
            None => false,
        }
    }

    /// Removes the feature of type `F`; reports whether there was one.
    /// The features have no removal callbacks, so the entity id is not used.
    pub fn remove<F: Feature>(&mut self, entity_id: &str) -> (r: bool)
        ensures
            r == seq_has_kind(old(self)@, F::feature_kind()),
            !seq_has_kind(final(self)@, F::feature_kind()),
            forall|k2: FeatureKind| k2 != F::feature_kind() ==> seq_lookup(final(self)@, k2) == seq_lookup(old(self)@, k2),
            final(self)@.len() == old(self)@.len() - if r { 1int } else { 0int },
    {
        self.remove_kind(F::kind())
    }

    /// There is a feature of type `F`.
    pub fn has<F: Feature>(&self) -> (r: bool)
        ensures
            r == seq_has_kind(self@, F::feature_kind()),
    {
        self.has_type_id(F::kind())
    }

    /// There is a feature of kind `k`.
    pub fn has_type_id(&self, k: FeatureKind) -> (r: bool)
        ensures
            r == seq_has_kind(self@, k),
    {
        match self.index_of(k) {
            Some(i) => {
                assert(kind_of(self@[i as int]) == k);
                true
            },
            None => false,
        }
    }

    /// The feature of kind `k`, if any.
    pub fn get_kind(&self, k: FeatureKind) -> (r: Option<&AnyFeature>)
        ensures
            r matches Some(a) ==> seq_lookup(self@, k) == Some(*a),
            r is None <==> !seq_has_kind(self@, k),
    {
        proof {
            use_type_invariant(self);
        }
        match self.index_of(k) {
            Some(i) => {
                proof {
                    lemma_lookup_at(self@, i as int);
                }
                Some(&self.features[i])
            },
            None => None,
        }
    }

    /// The feature of type `F`, if any.
    pub fn get<F: Feature>(&self) -> (r: Option<&F>)
        ensures
            r matches Some(f) ==> seq_lookup(self@, F::feature_kind()) == Some(f.wrapped()),
            r is None <==> !seq_has_kind(self@, F::feature_kind()),
    {
        match self.get_kind(F::kind()) {
            Some(a) => {
                let r = F::from_any(a);
                assert(r is Some);
                r
            },
            None => None,
        }
    }

    /// The type names of the features, in the order they were added.
    pub fn list_features(&self) -> (r: Vec<String>)
        ensures
            r@.len() == self@.len(),
            forall|i: int| 0 <= i < r@.len() ==> #[trigger] r@[i]@ == kind_name(kind_of(self@[i])),
    {
        let mut r: Vec<String> = Vec::new();
        let mut i: usize = 0;
        while i < self.features.len()
            invariant
                i <= self.features@.len(),
                r@.len() == i,
                forall|j: int| 0 <= j < i ==> #[trigger] r@[j]@ == kind_name(kind_of(self.features@[j])),
            decreases self.features.len() - i,
        {
            r.push(string_of(self.features[i].name()));
            i = i + 1;
        }
        r
    }

    /// The number of features.
    pub fn count(&self) -> (r: usize)
        ensures
            r == self@.len(),
    {
        self.features.len()
    }

    /// Removes all features.
    pub fn clear(&mut self)
        ensures
            final(self)@ == Seq::<AnyFeature>::empty(),
    {
        self.features = Vec::new();
    }
}

/// Combat ability: hit points, attack, defense, level and experience.
#[derive(Clone, Debug)]
pub struct FightFeature {
    pub hp: i32,
    pub hp_max: i32,
    pub attack: i32,
    pub defense: i32,
    pub level: u32,
    pub exp: u64,
}

impl FightFeature {
    /// A fighter at level 1 with no experience.
    pub fn new(hp: i32, hp_max: i32, attack: i32, defense: i32) -> (r: Self)
        ensures
            r == (FightFeature { hp, hp_max, attack, defense, level: 1, exp: 0 }),
    {
        FightFeature { hp, hp_max, attack, defense, level: 1, exp: 0 }
    }

    /// HP as a percentage of the maximum, within `[0, 100]`.
    pub fn hp_percent(&self) -> (r: i32)
        requires
            -21474836 <= self.hp <= 21474836,
        ensures
            r == percent_of(self.hp as int, self.hp_max as int),
    {
        percent_i32(self.hp, self.hp_max)
    }

    /// Alive while HP is positive.
    pub fn is_alive(&self) -> (r: bool)
        ensures
            r == (self.hp > 0),
    {
        self.hp > 0
    }
}

impl Feature for FightFeature {
    open spec fn feature_kind() -> FeatureKind {
        FeatureKind::Fight
    }

    open spec fn wrapped(self) -> AnyFeature {
        AnyFeature::Fight(self)
    }

    proof fn lemma_wrapped(x: Self, y: Self) {
    }

    fn kind() -> (k: FeatureKind) {
        FeatureKind::Fight
    }

    fn into_any(self) -> (a: AnyFeature) {
        AnyFeature::Fight(self)
    }

    fn from_any(a: &AnyFeature) -> (r: Option<&Self>) {
        match a {
            AnyFeature::Fight(f) => Some(f),
            _ => None,
        }
    }

    fn name(&self) -> (r: &'static str) {
        "FightFeature"
    }

    fn description(&self) -> &'static str {
        "战斗特性 - 可进行战斗"
    }
}

/// A backpack: item ids, a capacity and the weight carried.
#[derive(Clone, Debug)]
pub struct InventoryFeature {
    pub items: Vec<String>,
    pub capacity: usize,
    pub encumbrance: i32,
    pub max_encumbrance: i32,
}

/// The listing of backpack items from position `start`: one line
/// `  <number>. <item>` per item, numbered from 1.
pub open spec fn item_lines(items: Seq<String>, n: nat) -> Seq<char>
    decreases n,
{
    if n == 0 {
        Seq::empty()
    } else {
        item_lines(items, (n - 1) as nat) + "  "@ + nat_digits(n) + ". "@ + items[n - 1]@ + "\n"@
    }
}

/// The text listing a backpack.
pub open spec fn inventory_listing(items: Seq<String>) -> Seq<char> {
    if items.len() == 0 {
        "背包是空的。"@
    } else {
        "你的背包：\n"@ + item_lines(items, items.len())
    }
}

impl InventoryFeature {
    /// An empty backpack of the given capacity, carrying up to 1000.
    pub fn new(capacity: usize) -> (r: Self)
        ensures
            r.items@.len() == 0,
            r.capacity == capacity,
            r.encumbrance == 0,
            r.max_encumbrance == 1000,
    {
        InventoryFeature { items: Vec::new(), capacity, encumbrance: 0, max_encumbrance: 1000 }
    }

    /// The backpack holds as many items as its capacity.
    pub fn is_full(&self) -> (r: bool)
        ensures
            r == (self.items@.len() >= self.capacity),
    {
        self.items.len() >= self.capacity
    }

    /// Puts an item in; fails with `背包已满` when full.
    pub fn add_item(&mut self, item_id: String) -> (r: Result<(), String>)
        ensures
            r is Err <==> old(self).items@.len() >= old(self).capacity,
            r matches Err(e) ==> e@ == "背包已满"@ && final(self).items@ == old(self).items@,
            r is Ok ==> final(self).items@ == old(self).items@.push(item_id),
            final(self).capacity == old(self).capacity,
    {
        if self.is_full() {
            return Err(string_of("背包已满"));
        }
        self.items.push(item_id);
        Ok(())
    }

    /// Takes out the first item with id `item_id`; fails with `物品不存在`
    /// when there is none.
    pub fn remove_item(&mut self, item_id: &str) -> (r: Result<String, String>)
        ensures
            r is Err <==> !has_str(old(self).items@, item_id@),
            r matches Err(e) ==> e@ == "物品不存在"@ && final(self).items@ == old(self).items@,
            r matches Ok(x) ==> exists|i: int|
                is_first_str(old(self).items@, item_id@, i) && x == old(self).items@[i]
                    && final(self).items@ == old(self).items@.remove(i),
            final(self).capacity == old(self).capacity,
    {
        match find_str(&self.items, item_id) {
            Some(pos) => {
                let x = self.items.remove(pos);
                Ok(x)
            },
            None => Err(string_of("物品不存在")),
        }
    }

    /// The listing of the backpack.
    pub fn list_items(&self) -> (r: String)
        ensures
            r@ == inventory_listing(self.items@),
    {
        if self.items.len() == 0 {
            return string_of("背包是空的。");
        }
        let mut out = string_of("你的背包：\n");
        let ghost head = out@;
        let mut i: usize = 0;
        while i < self.items.len()
            invariant
                i <= self.items@.len(),
                out@ == head + item_lines(self.items@, i as nat),
            decreases self.items.len() - i,
        {
            push_str(&mut out, "  ");
            push_u64(&mut out, (i + 1) as u64);
            push_str(&mut out, ". ");
            push_str(&mut out, self.items[i].as_str());
            push_str(&mut out, "\n");
            i = i + 1;
            assert(out@ =~= head + item_lines(self.items@, i as nat));
        }
        out
    }
}

impl Feature for InventoryFeature {
    open spec fn feature_kind() -> FeatureKind {
        FeatureKind::Inventory
    }

    open spec fn wrapped(self) -> AnyFeature {
        AnyFeature::Inventory(self)
    }

    proof fn lemma_wrapped(x: Self, y: Self) {
    }

    fn kind() -> (k: FeatureKind) {
        FeatureKind::Inventory
    }

    fn into_any(self) -> (a: AnyFeature) {
        AnyFeature::Inventory(self)
    }

    fn from_any(a: &AnyFeature) -> (r: Option<&Self>) {
        match a {
            AnyFeature::Inventory(f) => Some(f),
            _ => None,
        }
    }

    fn name(&self) -> (r: &'static str) {
        "InventoryFeature"
    }

    fn description(&self) -> &'static str {
        "背包特性 - 可携带物品"
    }
}

/// Conversation: the topics an object can talk about.
#[derive(Clone, Debug)]
pub struct DialogFeature {
    pub topics: Vec<String>,
    pub dialog_id: String,
}

impl DialogFeature {
    /// A dialogue with the default topics 你好, 任务 and 再见.
    pub fn new(dialog_id: String) -> (r: Self)
        ensures
            r.dialog_id == dialog_id,
            r.topics@.len() == 3,
            r.topics@[0]@ == "你好"@,
            r.topics@[1]@ == "任务"@,
            r.topics@[2]@ == "再见"@,
    {
        let mut topics: Vec<String> = Vec::new();
        topics.push(string_of("你好"));
        topics.push(string_of("任务"));
        topics.push(string_of("再见"));
        DialogFeature { topics, dialog_id }
    }

    /// Some topic contains `topic`.
    pub fn has_topic(&self, topic: &str) -> (r: bool)
        ensures
            r == exists|i: int| 0 <= i < self.topics@.len() && seq_contains(#[trigger] self.topics@[i]@, topic@),
    {
        let mut i: usize = 0;
        while i < self.topics.len()
            invariant
                i <= self.topics@.len(),
                forall|j: int| 0 <= j < i ==> !seq_contains(#[trigger] self.topics@[j]@, topic@),
            decreases self.topics.len() - i,
        {
            if str_contains(self.topics[i].as_str(), topic) {
                return true;
            }
            i = i + 1;
        }
        false
    }
}

impl Feature for DialogFeature {
    open spec fn feature_kind() -> FeatureKind {
        FeatureKind::Dialog
    }

    open spec fn wrapped(self) -> AnyFeature {
        AnyFeature::Dialog(self)
    }

    proof fn lemma_wrapped(x: Self, y: Self) {
    }

    fn kind() -> (k: FeatureKind) {
        FeatureKind::Dialog
    }

    fn into_any(self) -> (a: AnyFeature) {
        AnyFeature::Dialog(self)
    }

    fn from_any(a: &AnyFeature) -> (r: Option<&Self>) {
        match a {
            AnyFeature::Dialog(f) => Some(f),
            _ => None,
        }
    }

    fn name(&self) -> (r: &'static str) {
        "DialogFeature"
    }

    fn description(&self) -> &'static str {
        "对话特性 - 可进行交互对话"
    }
}

/// Trading: the shop and its buy and sell rates in percent.
#[derive(Clone, Debug)]
pub struct ShopFeature {
    pub shop_id: String,
    pub buy_rate: u32,
    pub sell_rate: u32,
}

impl ShopFeature {
    /// A shop selling at full price (100%) and buying at half (50%).
    pub fn new(shop_id: String) -> (r: Self)
        ensures
            r == (ShopFeature { shop_id, buy_rate: 100, sell_rate: 50 }),
    {
        ShopFeature { shop_id, buy_rate: 100, sell_rate: 50 }
    }
}

impl Feature for ShopFeature {
    open spec fn feature_kind() -> FeatureKind {
        FeatureKind::Shop
    }

    open spec fn wrapped(self) -> AnyFeature {
        AnyFeature::Shop(self)
    }

    proof fn lemma_wrapped(x: Self, y: Self) {
    }

    fn kind() -> (k: FeatureKind) {
        FeatureKind::Shop
    }

    fn into_any(self) -> (a: AnyFeature) {
        AnyFeature::Shop(self)
    }

    fn from_any(a: &AnyFeature) -> (r: Option<&Self>) {
        match a {
            AnyFeature::Shop(f) => Some(f),
            _ => None,
        }
    }

    fn name(&self) -> (r: &'static str) {
        "ShopFeature"
    }

    fn description(&self) -> &'static str {
        "商店特性 - 可进行交易"
    }
}

/// Movement on the map.
#[derive(Clone, Debug)]
pub struct MovableFeature {
    pub can_move: bool,
    pub speed: u32,
}

impl MovableFeature {
    /// A mobile object at speed 100.
    pub fn new() -> (r: Self)
        ensures
            r == (MovableFeature { can_move: true, speed: 100 }),
    {
        MovableFeature { can_move: true, speed: 100 }
    }

    /// The object cannot move.
    pub fn is_immobile(&self) -> (r: bool)
        ensures
            r == !self.can_move,
    {
        !self.can_move
    }
}

impl Feature for MovableFeature {
    open spec fn feature_kind() -> FeatureKind {
        FeatureKind::Movable
    }

    open spec fn wrapped(self) -> AnyFeature {
        AnyFeature::Movable(self)
    }

    proof fn lemma_wrapped(x: Self, y: Self) {
    }

    fn kind() -> (k: FeatureKind) {
        FeatureKind::Movable
    }

    fn into_any(self) -> (a: AnyFeature) {
        AnyFeature::Movable(self)
    }

    fn from_any(a: &AnyFeature) -> (r: Option<&Self>) {
        match a {
            AnyFeature::Movable(f) => Some(f),
            _ => None,
        }
    }

    fn name(&self) -> (r: &'static str) {
        "MovableFeature"
    }

    fn description(&self) -> &'static str {
        "移动特性 - 可在地图中移动"
    }
}


/// How many strings of `s` are `k`.
pub open spec fn str_count(s: Seq<String>, k: Seq<char>) -> nat
    decreases s.len(),
{
    if s.len() == 0 { 0 } else { str_count(s.drop_last(), k) + if s.last()@ == k { 1nat } else { 0nat } }
}

proof fn lemma_str_count_remove(s: Seq<String>, i: int, k: Seq<char>)
    requires
        0 <= i < s.len(),
    ensures
        str_count(s.remove(i), k) + (if s[i]@ == k { 1nat } else { 0nat }) == str_count(s, k),
    decreases s.len(),
{
    if i < s.len() - 1 {
        lemma_str_count_remove(s.drop_last(), i, k);
        assert(s.remove(i).drop_last() =~= s.drop_last().remove(i));
        assert(s.remove(i).last() == s.last());
    } else {
        assert(s.remove(i) =~= s.drop_last());
    }
}

/// Taking an item out of a backpack holding it leaves one fewer of that
/// item, as many of every other, and one item fewer in all.
pub proof fn lemma_remove_item_counts(before: Seq<String>, k: Seq<char>, i: int)
    requires
        is_first_str(before, k, i),
    ensures
        str_count(before.remove(i), k) + 1 == str_count(before, k),
        forall|o: Seq<char>| o != k ==> #[trigger] str_count(before.remove(i), o) == str_count(before, o),
        before.remove(i).len() + 1 == before.len(),
{
    lemma_str_count_remove(before, i, k);
    assert forall|o: Seq<char>| o != k implies #[trigger] str_count(before.remove(i), o) == str_count(before, o) by {
        lemma_str_count_remove(before, i, o);
    }
}

} // verus!
