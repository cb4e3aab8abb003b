//! Forging: recipes that turn materials into equipment by chance, the
//! materials, and taking equipment apart.
use vstd::prelude::*;
use crate::errors::{MudError, runtime_error, not_found};
use crate::text::{push_str, push_i64, string_of, int_digits};
use crate::util::{Keyed, key_get, key_in, keys_unique, get_key, lemma_key_get_none};
use crate::world::item::join_spaced;
use crate::outside::{random_i32, random_usize};

verus! {

/// How a forging ended.
#[derive(Clone, Debug)]
pub enum ForgeResult {
    Success { item_id: String, name: String },
    Failed,
    LostMaterials,
}

/// Where a piece of equipment is worn.
#[derive(Clone, Copy, Debug, PartialEq, Eq, Structural)]
pub enum EquipmentSlot {
    Weapon,
    Armor,
    Helmet,
    Necklace,
    Ring,
    Bracelet,
    Boots,
}

/// The realm of a piece of equipment.
#[derive(Clone, Copy, Debug, PartialEq, Eq, Structural)]
pub enum EquipmentRealm {
    Mortal,
    Spirit,
    Immortal,
    Divine,
}

/// The quality of a piece of equipment.
#[derive(Clone, Copy, Debug, PartialEq, Eq, Structural)]
pub enum EquipmentQuality {
    Common,
    Uncommon,
    Rare,
    Epic,
    Legendary,
    Mythical,
}

/// The bonuses of a piece of equipment.
#[derive(Clone, Copy, Debug, PartialEq, Eq, Structural)]
pub struct EquipmentStats {
    pub attack: i32,
    pub defense: i32,
    pub hp_bonus: i32,
    pub mp_bonus: i32,
    pub crit_rate: i32,
    pub crit_damage: i32,
}

/// A count of one material.
#[derive(Debug)]
pub struct MaterialCount {
    pub material_id: String,
    pub count: i32,
}

impl Keyed for MaterialCount {
    open spec fn key_view(&self) -> Seq<char> {
        self.material_id@
    }

    fn key(&self) -> (r: &String) {
        &self.material_id
    }
}

/// A forging recipe: the materials it takes and its chance of success.
#[derive(Debug)]
pub struct ForgeRecipe {
    pub id: String,
    pub name: String,
    pub slot: EquipmentSlot,
    pub level_req: i32,
    pub materials: Vec<MaterialCount>,
    pub success_rate: i32,
    pub base_stats: EquipmentStats,
    pub realm: EquipmentRealm,
}

impl Keyed for ForgeRecipe {
    open spec fn key_view(&self) -> Seq<char> {
        self.id@
    }

    fn key(&self) -> (r: &String) {
        &self.id
    }
}

/// A forging material.
#[derive(Debug)]
pub struct ForgeMaterial {
    pub id: String,
    pub name: String,
    pub material_type: String,
    pub rarity: i32,
    pub description: String,
}

impl Keyed for ForgeMaterial {
    open spec fn key_view(&self) -> Seq<char> {
        self.id@
    }

    fn key(&self) -> (r: &String) {
        &self.id
    }
}

/// The recipes and the materials.
pub struct DuanzaoDaemon {
    recipes: Vec<ForgeRecipe>,
    materials: Vec<ForgeMaterial>,
}

/// The materials of a recipe are `m` in order: ids and counts.
pub open spec fn materials_are(s: Seq<MaterialCount>, m: Seq<(Seq<char>, int)>) -> bool {
    s.len() == m.len() && forall|i: int| 0 <= i < s.len() ==> (#[trigger] s[i]).material_id@ == m[i].0 && s[i].count == m[i].1
}

/// `r` has the given fields.
pub open spec fn recipe_is(r: ForgeRecipe, id: Seq<char>, name: Seq<char>, slot: EquipmentSlot, level: int, m: Seq<(Seq<char>, int)>, rate: int, stats: EquipmentStats) -> bool {
    &&& r.id@ == id
    &&& r.name@ == name
    &&& r.slot == slot
    &&& r.level_req == level
    &&& materials_are(r.materials@, m)
    &&& r.success_rate == rate
    &&& r.base_stats == stats
    &&& r.realm == EquipmentRealm::Mortal
}

/// The recipes the daemon starts with: iron sword, steel sword, iron armour.
pub open spec fn default_recipes(s: Seq<ForgeRecipe>) -> bool {
    &&& s.len() == 3
    &&& recipe_is(s[0], "iron_sword"@, "铁剑"@, EquipmentSlot::Weapon, 5, seq![("iron"@, 5int), ("wood"@, 2int)], 90,
        EquipmentStats { attack: 15, defense: 0, hp_bonus: 0, mp_bonus: 0, crit_rate: 0, crit_damage: 0 })
    &&& recipe_is(s[1], "steel_sword"@, "钢剑"@, EquipmentSlot::Weapon, 10, seq![("steel"@, 5int), ("iron"@, 10int)], 75,
        EquipmentStats { attack: 30, defense: 0, hp_bonus: 0, mp_bonus: 0, crit_rate: 5, crit_damage: 10 })
    &&& recipe_is(s[2], "iron_armor"@, "铁甲"@, EquipmentSlot::Armor, 8, seq![("iron"@, 15int), ("leather"@, 5int)], 85,
        EquipmentStats { attack: 0, defense: 20, hp_bonus: 50, mp_bonus: 0, crit_rate: 0, crit_damage: 0 })
}

/// `m` has the given fields.
pub open spec fn material_is(m: ForgeMaterial, id: Seq<char>, name: Seq<char>, kind: Seq<char>, rarity: int, description: Seq<char>) -> bool {
    m.id@ == id && m.name@ == name && m.material_type@ == kind && m.rarity == rarity && m.description@ == description
}

/// The materials the daemon starts with: iron ore, steel, wood and leather.
pub open spec fn default_materials(s: Seq<ForgeMaterial>) -> bool {
    &&& s.len() == 4
    &&& material_is(s[0], "iron"@, "铁矿石"@, "metal"@, 1, "常见的铁矿石，可用于锻造基础装备。"@)
    &&& material_is(s[1], "steel"@, "钢材"@, "metal"@, 3, "精炼的钢材，可用于锻造高级装备。"@)
    &&& material_is(s[2], "wood"@, "木材"@, "wood"@, 1, "普通的木材，可用于制作武器手柄。"@)
    &&& material_is(s[3], "leather"@, "皮革"@, "leather"@, 1, "经过处理的动物皮革，可用于制作护甲。"@)
}

fn need(id: &str, count: i32) -> (r: MaterialCount)
    ensures
        r.material_id@ == id@ && r.count == count,
{
    MaterialCount { material_id: string_of(id), count }
}

fn recipe(id: &str, name: &str, slot: EquipmentSlot, level: i32, a: &str, na: i32, b: &str, nb: i32, rate: i32, stats: EquipmentStats) -> (r: ForgeRecipe)
    ensures
        recipe_is(r, id@, name@, slot, level as int, seq![(a@, na as int), (b@, nb as int)], rate as int, stats),
{
    let mut materials: Vec<MaterialCount> = Vec::new();
    materials.push(need(a, na));
    materials.push(need(b, nb));
    ForgeRecipe { id: string_of(id), name: string_of(name), slot, level_req: level, materials, success_rate: rate, base_stats: stats, realm: EquipmentRealm::Mortal }
}

fn material(id: &str, name: &str, kind: &str, rarity: i32, description: &str) -> (r: ForgeMaterial)
    ensures
        material_is(r, id@, name@, kind@, rarity as int, description@),
{
    ForgeMaterial { id: string_of(id), name: string_of(name), material_type: string_of(kind), rarity, description: string_of(description) }
}

fn default_recipe_list() -> (r: Vec<ForgeRecipe>)
    ensures
        default_recipes(r@),
        keys_unique(r@),
{
    let mut v: Vec<ForgeRecipe> = Vec::new();
    v.push(recipe("iron_sword", "铁剑", EquipmentSlot::Weapon, 5, "iron", 5, "wood", 2, 90,
        EquipmentStats { attack: 15, defense: 0, hp_bonus: 0, mp_bonus: 0, crit_rate: 0, crit_damage: 0 }));
    v.push(recipe("steel_sword", "钢剑", EquipmentSlot::Weapon, 10, "steel", 5, "iron", 10, 75,
        EquipmentStats { attack: 30, defense: 0, hp_bonus: 0, mp_bonus: 0, crit_rate: 5, crit_damage: 10 }));
    v.push(recipe("iron_armor", "铁甲", EquipmentSlot::Armor, 8, "iron", 15, "leather", 5, 85,
        EquipmentStats { attack: 0, defense: 20, hp_bonus: 50, mp_bonus: 0, crit_rate: 0, crit_damage: 0 }));
    proof {
        reveal_strlit("iron_sword");
        reveal_strlit("steel_sword");
        reveal_strlit("iron_armor");
        assert(v@[0].key_view()[0] != v@[1].key_view()[0]);
        assert(v@[0].key_view()[5] != v@[2].key_view()[5]);
        assert(v@[1].key_view()[0] != v@[2].key_view()[0]);
    }
    v
}

fn default_material_list() -> (r: Vec<ForgeMaterial>)
    ensures
        default_materials(r@),
        keys_unique(r@),
{
    let mut v: Vec<ForgeMaterial> = Vec::new();
    v.push(material("iron", "铁矿石", "metal", 1, "常见的铁矿石，可用于锻造基础装备。"));
    v.push(material("steel", "钢材", "metal", 3, "精炼的钢材，可用于锻造高级装备。"));
    v.push(material("wood", "木材", "wood", 1, "普通的木材，可用于制作武器手柄。"));
    v.push(material("leather", "皮革", "leather", 1, "经过处理的动物皮革，可用于制作护甲。"));
    proof {
        reveal_strlit("iron");
        reveal_strlit("steel");
        reveal_strlit("wood");
        reveal_strlit("leather");
        assert(v@[0].key_view()[0] != v@[1].key_view()[0]);
        assert(v@[0].key_view()[0] != v@[2].key_view()[0]);
        assert(v@[0].key_view()[0] != v@[3].key_view()[0]);
        assert(v@[1].key_view()[0] != v@[2].key_view()[0]);
        assert(v@[1].key_view()[0] != v@[3].key_view()[0]);
        assert(v@[2].key_view()[0] != v@[3].key_view()[0]);
    }
    v
}

/// The count of a material a player holds, 0 when none is recorded.
pub open spec fn held(mats: Seq<MaterialCount>, id: Seq<char>) -> int {
    match key_get(mats, id) {
        Some(m) => m.count as int,
        None => 0,
    }
}

/// The first material of the recipe, from position `i` on, that the player
/// lacks and the daemon knows.
pub open spec fn first_missing(needs: Seq<MaterialCount>, have: Seq<MaterialCount>, known: Seq<ForgeMaterial>, i: int) -> Option<int>
    decreases needs.len() - i,
{
    if i < 0 || i >= needs.len() {
        None
    } else if held(have, needs[i].material_id@) < needs[i].count && key_in(known, needs[i].material_id@) {
        Some(i)
    } else {
        first_missing(needs, have, known, i + 1)
    }
}

/// What forging recipe `recipe_id` at `level` with materials `have` and
/// the chance `roll` gives: 配方不存在 for an unknown recipe, 等级不足
/// below its level, 缺少材料 for the first known material the player lacks
/// (see `first_missing`), else a success when `roll` is below the rate.
pub open spec fn forged(d: DuanzaoDaemon, recipe_id: Seq<char>, level: i32, have: Seq<MaterialCount>, roll: i32,
    r: Result<ForgeResult, MudError>) -> bool {
    match key_get(d.recipes_view(), recipe_id) {
        None => r matches Err(MudError::NotFound(m)) && m@ == "配方不存在"@,
        Some(rc) => if level < rc.level_req {
            r matches Err(MudError::RuntimeError(m)) && m@ == "等级不足"@
        } else {
            match first_missing(rc.materials@, have, d.materials_view(), 0) {
                Some(i) => r matches Err(MudError::RuntimeError(m)) && m@ == "缺少材料: "@ + key_get(d.materials_view(), rc.materials@[i].material_id@).unwrap().name@ + " (需要"@ + int_digits(rc.materials@[i].count as int) + "个)"@,
                None => if roll < rc.success_rate {
                    r matches Ok(ForgeResult::Success { item_id, name }) && item_id@ == rc.id@ && name@ == rc.name@
                } else {
                    r matches Ok(ForgeResult::Failed)
                },
            }
        },
    }
}

/// With no known material missing from position `i` on, the player holds
/// each known material of the recipe from there on as many times as it
/// needs.
proof fn lemma_none_missing(needs: Seq<MaterialCount>, have: Seq<MaterialCount>, known: Seq<ForgeMaterial>, i: int)
    requires
        0 <= i,
        first_missing(needs, have, known, i) is None,
    ensures
        forall|k: int| i <= k < needs.len() && key_in(known, (#[trigger] needs[k]).material_id@)
            ==> held(have, needs[k].material_id@) >= needs[k].count,
    decreases needs.len() - i,
{
    if i < needs.len() {
        lemma_none_missing(needs, have, known, i + 1);
    }
}

/// A forge that does not fail comes from a known recipe, at or above its
/// level, by a player holding every known material of the recipe as many
/// times as the recipe needs it; a success gives the recipe's item.
pub proof fn lemma_forge_needs_materials(d: DuanzaoDaemon, recipe_id: Seq<char>, level: i32, have: Seq<MaterialCount>,
    roll: i32, r: Result<ForgeResult, MudError>)
    requires
        forged(d, recipe_id, level, have, roll, r),
        r is Ok,
    ensures
        key_get(d.recipes_view(), recipe_id) matches Some(rc) && level >= rc.level_req
            && (forall|k: int| 0 <= k < rc.materials@.len() && key_in(d.materials_view(), (#[trigger] rc.materials@[k]).material_id@)
                ==> (match key_get(have, rc.materials@[k].material_id@) { Some(m) => m.count as int, None => 0 })
                    >= rc.materials@[k].count)
            && (r matches Ok(ForgeResult::Success { item_id, .. }) ==> item_id@ == rc.id@),
{
    let rc = key_get(d.recipes_view(), recipe_id)->0;
    lemma_none_missing(rc.materials@, have, d.materials_view(), 0);
}

/// The name of a slot.
pub open spec fn slot_name(s: EquipmentSlot) -> Seq<char> {
    match s {
        EquipmentSlot::Weapon => "武器"@,
        EquipmentSlot::Armor => "护甲"@,
        EquipmentSlot::Helmet => "头盔"@,
        EquipmentSlot::Necklace => "项链"@,
        EquipmentSlot::Ring => "戒指"@,
        EquipmentSlot::Bracelet => "护腕"@,
        EquipmentSlot::Boots => "鞋子"@,
    }
}

/// The name of a realm.
pub open spec fn realm_name(r: EquipmentRealm) -> Seq<char> {
    match r {
        EquipmentRealm::Mortal => "凡品"@,
        EquipmentRealm::Spirit => "§C灵器§N"@,
        EquipmentRealm::Immortal => "§B仙器§N"@,
        EquipmentRealm::Divine => "§Y神器§N"@,
    }
}

/// The materials of a recipe that the daemon knows, each as `name xN`.
pub open spec fn material_parts(needs: Seq<MaterialCount>, known: Seq<ForgeMaterial>) -> Seq<Seq<char>>
    decreases needs.len(),
{
    if needs.len() == 0 {
        Seq::empty()
    } else {
        let prev = material_parts(needs.drop_last(), known);
        match key_get(known, needs.last().material_id@) {
            Some(m) => prev.push(m.name@ + " x"@ + int_digits(needs.last().count as int)),
            None => prev,
        }
    }
}

/// Texts joined with `, `.
pub open spec fn join_commas(parts: Seq<Seq<char>>) -> Seq<char>
    decreases parts.len(),
{
    if parts.len() == 0 {
        Seq::empty()
    } else if parts.len() == 1 {
        parts[0]
    } else {
        join_commas(parts.drop_last()) + ", "@ + parts.last()
    }
}

/// The entry of one recipe in the recipe list.
pub open spec fn recipe_entry(r: ForgeRecipe, known: Seq<ForgeMaterial>) -> Seq<char> {
    "§Y["@ + r.name@ + "]§N "@ + realm_name(r.realm) + " - Lv."@ + int_digits(r.level_req as int) + "\n  部位: "@ + slot_name(r.slot)
        + "\n  成功率: "@ + int_digits(r.success_rate as int) + "%\n  材料: "@ + join_commas(material_parts(r.materials@, known)) + "\n"@
}

/// The entries of a list of recipes.
pub open spec fn recipe_entries(rs: Seq<ForgeRecipe>, known: Seq<ForgeMaterial>) -> Seq<char>
    decreases rs.len(),
{
    if rs.len() == 0 {
        Seq::empty()
    } else {
        recipe_entries(rs.drop_last(), known) + recipe_entry(rs.last(), known)
    }
}

/// The bonuses worth listing, each as `name+value`.
pub open spec fn equipment_parts(s: EquipmentStats) -> Seq<Seq<char>> {
    let a = if s.attack > 0 { seq!["攻击+"@ + int_digits(s.attack as int)] } else { Seq::empty() };
    let d = if s.defense > 0 { seq!["防御+"@ + int_digits(s.defense as int)] } else { Seq::empty() };
    let h = if s.hp_bonus > 0 { seq!["HP+"@ + int_digits(s.hp_bonus as int)] } else { Seq::empty() };
    let m = if s.mp_bonus > 0 { seq!["MP+"@ + int_digits(s.mp_bonus as int)] } else { Seq::empty() };
    let c = if s.crit_rate > 0 { seq!["暴击+"@ + int_digits(s.crit_rate as int) + "%"@] } else { Seq::empty() };
    a + d + h + m + c
}

/// The materials a taken-apart piece may give.
pub open spec fn decompose_material(roll: int) -> Seq<char> {
    let i = roll % 4;
    if i == 0 {
        "iron"@
    } else if i == 1 {
        "steel"@
    } else if i == 2 {
        "wood"@
    } else {
        "leather"@
    }
}

/// How many materials taking apart gives at a player level: level / 3 + 1,
/// rounded toward zero, none when that is not positive.
pub open spec fn decompose_count(level: int) -> int {
    let n = crate::util::trunc_div(level, 3) + 1;
    if n > 0 { n } else { 0 }
}

fn join_part(out: &mut String, parts: Ghost<Seq<Seq<char>>>, any: bool, sep: &str, text: &str) -> (r: Ghost<Seq<Seq<char>>>)
    requires
        old(out)@ == (if sep@ == ", "@ { join_commas(parts@) } else { join_spaced(parts@) }),
        sep@ == ", "@ || sep@ == " "@,
        any == (parts@.len() > 0),
    ensures
        r@ == parts@.push(text@),
        final(out)@ == (if sep@ == ", "@ { join_commas(r@) } else { join_spaced(r@) }),
{
    if any {
        push_str(out, sep);
    }
    push_str(out, text);
    let ghost np = parts@.push(text@);
    proof {
        assert(np.drop_last() =~= parts@);
        if sep@ == ", "@ {
            assert(out@ =~= join_commas(np));
        } else {
            assert(out@ =~= join_spaced(np));
        }
    }
    Ghost(np)
}

impl DuanzaoDaemon {
    /// The recipes.
    pub closed spec fn recipes_view(&self) -> Seq<ForgeRecipe> {
        self.recipes@
    }

    /// The materials.
    pub closed spec fn materials_view(&self) -> Seq<ForgeMaterial> {
        self.materials@
    }

    /// The default recipes and materials.
    pub fn new() -> (r: Self)
        ensures
            default_recipes(r.recipes_view()),
            default_materials(r.materials_view()),
            keys_unique(r.recipes_view()) && keys_unique(r.materials_view()),
    {
        DuanzaoDaemon { recipes: default_recipe_list(), materials: default_material_list() }
    }

    /// The recipe with id `recipe_id`.
    pub fn get_recipe(&self, recipe_id: &str) -> (r: Option<&ForgeRecipe>)
        ensures
            r matches Some(x) ==> key_get(self.recipes_view(), recipe_id@) == Some(*x),
            r is None <==> key_get(self.recipes_view(), recipe_id@) is None,
    {
        get_key(&self.recipes, recipe_id)
    }

    /// All recipes.
    pub fn get_all_recipes(&self) -> (r: Vec<&ForgeRecipe>)
        ensures
            r@.map_values(|x: &ForgeRecipe| *x) == self.recipes_view(),
    {
        let mut r: Vec<&ForgeRecipe> = Vec::new();
        let mut i: usize = 0;
        while i < self.recipes.len()
            invariant
                i <= self.recipes@.len(),
                r@.map_values(|x: &ForgeRecipe| *x) == self.recipes@.take(i as int),
            decreases self.recipes.len() - i,
        {
            let ghost prev = r@;
            r.push(&self.recipes[i]);
            assert(r@.map_values(|x: &ForgeRecipe| *x) =~= prev.map_values(|x: &ForgeRecipe| *x).push(self.recipes@[i as int]));
            i = i + 1;
            assert(self.recipes@.take(i as int) =~= self.recipes@.take(i - 1).push(self.recipes@[i - 1]));
        }
        assert(self.recipes@.take(i as int) =~= self.recipes@);
        r
    }

    /// The recipes a player of level `player_level` may forge.
    pub fn get_available_recipes(&self, player_level: i32) -> (r: Vec<&ForgeRecipe>)
        ensures
            r@.map_values(|x: &ForgeRecipe| *x) == self.recipes_view().filter(|x: ForgeRecipe| player_level >= x.level_req),
    {
        let ghost rs = self.recipes@;
        let mut r: Vec<&ForgeRecipe> = Vec::new();
        let mut i: usize = 0;
        while i < self.recipes.len()
            invariant
                i <= rs.len(),
                rs == self.recipes@,
                r@.map_values(|x: &ForgeRecipe| *x) == rs.take(i as int).filter(|x: ForgeRecipe| player_level >= x.level_req),
            decreases self.recipes.len() - i,
        {
            let ghost prev = r@;
            proof {
                assert(rs.take(i + 1) =~= rs.take(i as int).push(rs[i as int]));
                rs.take(i as int).lemma_filter_push(rs[i as int], |x: ForgeRecipe| player_level >= x.level_req);
            }
            if player_level >= self.recipes[i].level_req {
                r.push(&self.recipes[i]);
                assert(r@.map_values(|x: &ForgeRecipe| *x) =~= prev.map_values(|x: &ForgeRecipe| *x).push(rs[i as int]));
            }
            i = i + 1;
        }
        assert(rs.take(i as int) =~= rs);
        r
    }

    /// The material with id `material_id`.
    pub fn get_material(&self, material_id: &str) -> (r: Option<&ForgeMaterial>)
        ensures
            r matches Some(x) ==> key_get(self.materials_view(), material_id@) == Some(*x),
            r is None <==> key_get(self.materials_view(), material_id@) is None,
    {
        get_key(&self.materials, material_id)
    }

    /// Forges by recipe with the chance `roll`: fails with 配方不存在 for an
    /// unknown recipe, 等级不足 below its level and 缺少材料: name (需要N个)
    /// for the first known material the player lacks; otherwise succeeds
    /// exactly when `roll` is below the success rate.
    pub fn forge_with_roll(&self, recipe_id: &str, player_level: i32, player_materials: &Vec<MaterialCount>, roll: i32) -> (r: Result<ForgeResult, MudError>)
        ensures
            forged(*self, recipe_id@, player_level, player_materials@, roll, r),
    {
        let rc = match self.get_recipe(recipe_id) {
            Some(rc) => rc,
            None => {
                return Err(not_found("配方不存在"));
            },
        };
        if player_level < rc.level_req {
            return Err(runtime_error("等级不足"));
        }
        let mut i: usize = 0;
        while i < rc.materials.len()
            invariant
                i <= rc.materials@.len(),
                key_get(self.recipes@, recipe_id@) == Some(*rc),
                player_level >= rc.level_req,
                first_missing(rc.materials@, player_materials@, self.materials@, 0) == first_missing(rc.materials@, player_materials@, self.materials@, i as int),
            decreases rc.materials.len() - i,
        {
            let n = &rc.materials[i];
            let have: i32 = match get_key(player_materials, n.material_id.as_str()) {
                Some(m) => m.count,
                None => 0,
            };
            if have < n.count {
                match get_key(&self.materials, n.material_id.as_str()) {
                    Some(mat) => {
                        assert(first_missing(rc.materials@, player_materials@, self.materials@, i as int) == Some(i as int));
                        assert(key_get(self.recipes@, recipe_id@) == Some(*rc));
                        assert(key_get(self.materials@, n.material_id@) == Some(*mat));
                        assert(rc.materials@[i as int] == *n);
                        let mut m = string_of("缺少材料: ");
                        push_str(&mut m, mat.name.as_str());
                        push_str(&mut m, " (需要");
                        push_i64(&mut m, n.count as i64);
                        push_str(&mut m, "个)");
                        return Err(MudError::RuntimeError(m));
                    },
                    None => {},
                }
            }
            i = i + 1;
        }
        if roll < rc.success_rate {
            Ok(ForgeResult::Success { item_id: rc.id.clone(), name: rc.name.clone() })
        } else {
            Ok(ForgeResult::Failed)
        }
    }

    /// Forges by recipe with a random chance (see `forge_with_roll`).
    pub fn forge(&self, recipe_id: &str, player_level: i32, player_materials: &Vec<MaterialCount>) -> (r: Result<ForgeResult, MudError>)
        ensures
            match key_get(self.recipes_view(), recipe_id@) {
                None => r matches Err(MudError::NotFound(m)) && m@ == "配方不存在"@,
                Some(rc) => if player_level < rc.level_req {
                    r matches Err(MudError::RuntimeError(m)) && m@ == "等级不足"@
                } else {
                    match first_missing(rc.materials@, player_materials@, self.materials_view(), 0) {
                        Some(i) => r matches Err(MudError::RuntimeError(m)) && m@ == "缺少材料: "@ + key_get(self.materials_view(), rc.materials@[i].material_id@).unwrap().name@ + " (需要"@ + int_digits(rc.materials@[i].count as int) + "个)"@,
                        None => r matches Ok(ForgeResult::Failed) || (r matches Ok(ForgeResult::Success { item_id, name }) && item_id@ == rc.id@ && name@ == rc.name@),
                    }
                },
            },
    {
        let roll = random_i32();
        self.forge_with_roll(recipe_id, player_level, player_materials, roll)
    }

    /// Takes a piece apart: `player_level / 3 + 1` random materials, one
    /// each, drawn from iron, steel, wood and leather.
    pub fn decompose(&self, item_id: &str, player_level: i32) -> (r: Result<Vec<(String, i32)>, MudError>)
        ensures
            match r {
                Ok(v) => v@.len() == decompose_count(player_level as int) && forall|i: int| 0 <= i < v@.len() ==> {
                    &&& (#[trigger] v@[i]).1 == 1
                    &&& exists|roll: int| 0 <= roll && v@[i].0@ == decompose_material(roll)
                },
                Err(_) => false,
            },
    {
        let mut out: Vec<(String, i32)> = Vec::new();
        let n: i32 = player_level / 3 + 1;
        let mut k: i32 = 0;
        while k < n
            invariant
                n == crate::util::trunc_div(player_level as int, 3) + 1,
                0 <= k,
                n > 0 ==> k <= n,
                n <= 0 ==> k == 0,
                out@.len() == k,
                forall|i: int| 0 <= i < out@.len() ==> {
                    &&& (#[trigger] out@[i]).1 == 1
                    &&& exists|roll: int| 0 <= roll && out@[i].0@ == decompose_material(roll)
                },
            decreases n - k,
        {
            let roll = random_usize();
            let name = match roll % 4 {
                0 => "iron",
                1 => "steel",
                2 => "wood",
                _ => "leather",
            };
            assert(name@ == decompose_material(roll as int));
            out.push((string_of(name), 1));
            k = k + 1;
        }
        assert(out@.len() == decompose_count(player_level as int));
        Ok(out)
    }

    /// The recipe list: for each recipe its name, realm, level, slot,
    /// success rate and the known materials it takes.
    pub fn format_recipe_list(&self, recipes: &[&ForgeRecipe]) -> (r: String)
        ensures
            r@ == "§H=== 锻造配方 ===§N\n"@ + if recipes@.len() == 0 {
                "没有可用的配方。\n"@
            } else {
                recipe_entries(recipes@.map_values(|x: &ForgeRecipe| *x), self.materials_view())
            },
    {
        let ghost rv = recipes@.map_values(|x: &ForgeRecipe| *x);
        let mut out = string_of("§H=== 锻造配方 ===§N\n");
        let ghost head = out@;
        if recipes.len() == 0 {
            push_str(&mut out, "没有可用的配方。\n");
            return out;
        }
        let mut i: usize = 0;
        while i < recipes.len()
            invariant
                i <= recipes@.len(),
                rv == recipes@.map_values(|x: &ForgeRecipe| *x),
                out@ == head + recipe_entries(rv.take(i as int), self.materials@),
            decreases recipes.len() - i,
        {
            let e = self.recipe_entry_string(recipes[i]);
            push_str(&mut out, e.as_str());
            assert(rv.take(i + 1).drop_last() =~= rv.take(i as int));
            assert(rv[i as int] == *recipes@[i as int]);
            i = i + 1;
        }
        assert(rv.take(i as int) =~= rv);
        out
    }

    fn recipe_entry_string(&self, rc: &ForgeRecipe) -> (r: String)
        ensures
            r@ == recipe_entry(*rc, self.materials@),
    {
        let mut mats = String::new();
        let mut parts: Ghost<Seq<Seq<char>>> = Ghost(Seq::empty());
        let mut any = false;
        let mut i: usize = 0;
        while i < rc.materials.len()
            invariant
                i <= rc.materials@.len(),
                parts@ == material_parts(rc.materials@.take(i as int), self.materials@),
                any == (parts@.len() > 0),
                mats@ == join_commas(parts@),
            decreases rc.materials.len() - i,
        {
            let n = &rc.materials[i];
            proof {
                assert(rc.materials@.take(i + 1).drop_last() =~= rc.materials@.take(i as int));
                assert(rc.materials@.take(i + 1).last() == rc.materials@[i as int]);
            }
            match get_key(&self.materials, n.material_id.as_str()) {
                Some(m) => {
                    let mut t = m.name.clone();
                    push_str(&mut t, " x");
                    push_i64(&mut t, n.count as i64);
                    proof {
                        reveal_strlit(", ");
                    }
                    parts = join_part(&mut mats, parts, any, ", ", t.as_str());
                    any = true;
                },
                None => {},
            }
            i = i + 1;
        }
        assert(rc.materials@.take(i as int) =~= rc.materials@);
        let realm = match rc.realm {
            EquipmentRealm::Mortal => "凡品",
            EquipmentRealm::Spirit => "§C灵器§N",
            EquipmentRealm::Immortal => "§B仙器§N",
            EquipmentRealm::Divine => "§Y神器§N",
        };
        let slot = match rc.slot {
            EquipmentSlot::Weapon => "武器",
            EquipmentSlot::Armor => "护甲",
            EquipmentSlot::Helmet => "头盔",
            EquipmentSlot::Necklace => "项链",
            EquipmentSlot::Ring => "戒指",
            EquipmentSlot::Bracelet => "护腕",
            EquipmentSlot::Boots => "鞋子",
        };
        let mut out = string_of("§Y[");
        push_str(&mut out, rc.name.as_str());
        push_str(&mut out, "]§N ");
        push_str(&mut out, realm);
        push_str(&mut out, " - Lv.");
        push_i64(&mut out, rc.level_req as i64);
        push_str(&mut out, "\n  部位: ");
        push_str(&mut out, slot);
        push_str(&mut out, "\n  成功率: ");
        push_i64(&mut out, rc.success_rate as i64);
        push_str(&mut out, "%\n  材料: ");
        push_str(&mut out, mats.as_str());
        push_str(&mut out, "\n");
        out
    }

    /// The positive attack, defense, HP, MP and critical bonuses, space
    /// separated, or 无特殊属性 when there is none.
    pub fn format_stats(&self, stats: &EquipmentStats) -> (r: String)
        ensures
            r@ == if equipment_parts(*stats).len() == 0 { "无特殊属性"@ } else { join_spaced(equipment_parts(*stats)) },
    {
        let mut s = String::new();
        let mut parts: Ghost<Seq<Seq<char>>> = Ghost(Seq::empty());
        let mut any = false;
        proof {
            reveal_strlit(" ");
            reveal_strlit(", ");
        }
        if stats.attack > 0 {
            let mut t = string_of("攻击+");
            push_i64(&mut t, stats.attack as i64);
            parts = join_part(&mut s, parts, any, " ", t.as_str());
            any = true;
        }
        if stats.defense > 0 {
            let mut t = string_of("防御+");
            push_i64(&mut t, stats.defense as i64);
            parts = join_part(&mut s, parts, any, " ", t.as_str());
            any = true;
        }
        if stats.hp_bonus > 0 {
            let mut t = string_of("HP+");
            push_i64(&mut t, stats.hp_bonus as i64);
            parts = join_part(&mut s, parts, any, " ", t.as_str());
            any = true;
        }
        if stats.mp_bonus > 0 {
            let mut t = string_of("MP+");
            push_i64(&mut t, stats.mp_bonus as i64);
            parts = join_part(&mut s, parts, any, " ", t.as_str());
            any = true;
        }
        if stats.crit_rate > 0 {
            let mut t = string_of("暴击+");
            push_i64(&mut t, stats.crit_rate as i64);
            push_str(&mut t, "%");
            parts = join_part(&mut s, parts, any, " ", t.as_str());
            any = true;
        }
        assert(parts@ =~= equipment_parts(*stats));
        if !any {
            return string_of("无特殊属性");
        }
        s
    }
}

impl Default for DuanzaoDaemon {
    fn default() -> (r: Self)
        ensures
            default_recipes(r.recipes_view()),
            default_materials(r.materials_view()),
    {
        Self::new()
    }
}

} // verus!
