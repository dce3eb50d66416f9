//! A small on-chain game: characters level up through experience, wear
//! equipment, fight each other or monsters, and earn game tokens.
use vstd::prelude::*;
use crate::keymap::{KeyMap, get_or_zero};

verus! {

/// A player's character.
#[derive(Debug, Clone)]
pub struct Character {
    pub id: u64,
    pub owner: String,
    pub name: String,
    pub level: u32,
    pub exp: u64,
    pub hp: u32,
    pub attack: u32,
    pub defense: u32,
    pub wins: u32,
    pub losses: u32,
    pub created_at: u64,
}

/// Levels gained when a character at `level` holds `exp` experience: each
/// level costs `level * 100`.
pub open spec fn levels_gained(level: nat, exp: nat) -> nat
    decreases exp,
{
    if level == 0 {
        0
    } else if exp >= level * 100 {
        1 + levels_gained(level + 1, (exp - level * 100) as nat)
    } else {
        0
    }
}

/// Experience left over after those level-ups.
pub open spec fn exp_left(level: nat, exp: nat) -> nat
    decreases exp,
{
    if level == 0 {
        exp
    } else if exp >= level * 100 {
        exp_left(level + 1, (exp - level * 100) as nat)
    } else {
        exp
    }
}

/// Combat power: `hp + 10 * attack + 5 * defense`.
pub open spec fn power_of(c: Character) -> int {
    c.hp + c.attack * 10 + c.defense * 5
}

/// `c` after gaining `amount` experience.
pub open spec fn gain_exp(c: Character, amount: nat) -> Character {
    let n = levels_gained(c.level as nat, (c.exp + amount) as nat);
    Character {
        level: (c.level + n) as u32,
        exp: exp_left(c.level as nat, (c.exp + amount) as nat) as u64,
        hp: (c.hp + 20 * n) as u32,
        attack: (c.attack + 5 * n) as u32,
        defense: (c.defense + 3 * n) as u32,
        ..c
    }
}

/// Gaining `amount` experience keeps every field in range (and terminates).
pub open spec fn gain_ok(c: Character, amount: nat) -> bool {
    let n = levels_gained(c.level as nat, (c.exp + amount) as nat);
    &&& c.level >= 1
    &&& c.exp + amount <= u64::MAX
    &&& c.level + n <= u32::MAX
    &&& c.hp + 20 * n <= u32::MAX
    &&& c.attack + 5 * n <= u32::MAX
    &&& c.defense + 3 * n <= u32::MAX
}

/// The outcome of a fight for one side: a win counts and is worth 50
/// experience, a loss counts and is worth 10.
pub open spec fn after_fight(c: Character, won: bool) -> Character {
    if won {
        gain_exp(Character { wins: (c.wins + 1) as u32, ..c }, 50)
    } else {
        gain_exp(Character { losses: (c.losses + 1) as u32, ..c }, 10)
    }
}

pub open spec fn fight_ok(c: Character, won: bool) -> bool {
    &&& won ==> c.wins + 1 <= u32::MAX
    &&& !won ==> c.losses + 1 <= u32::MAX
    &&& gain_ok(c, if won { 50 } else { 10 })
}

proof fn lemma_levels_step(level: nat, exp: nat)
    requires
        level >= 1,
        exp >= level * 100,
    ensures
        levels_gained(level, exp) == 1 + levels_gained(level + 1, (exp - level * 100) as nat),
        exp_left(level, exp) == exp_left(level + 1, (exp - level * 100) as nat),
{
}

impl Character {
    /// A level-1 character with 100 hp, 10 attack and 5 defense.
    pub fn new(id: u64, owner: String, name: String, created_at: u64) -> (r: Self)
        ensures
            r.id == id,
            r.owner@ == owner@,
            r.name@ == name@,
            r.level == 1,
            r.exp == 0,
            r.hp == 100,
            r.attack == 10,
            r.defense == 5,
            r.wins == 0,
            r.losses == 0,
            r.created_at == created_at,
    {
        Character {
            id,
            owner,
            name,
            level: 1,
            exp: 0,
            hp: 100,
            attack: 10,
            defense: 5,
            wins: 0,
            losses: 0,
            created_at,
        }
    }

    /// Experience needed for the next level: `level * 100`.
    pub fn exp_to_next_level(&self) -> (r: u64)
        ensures
            r == self.level * 100,
    {
        (self.level as u64) * 100
    }

    /// Adds experience and levels up as long as it suffices.
    pub fn add_exp(&mut self, amount: u64)
        requires
            gain_ok(*old(self), amount as nat),
        ensures
            *final(self) == gain_exp(*old(self), amount as nat),
    {
        let ghost c0 = *self;
        let ghost e0: nat = (self.exp + amount) as nat;
        let ghost n0 = levels_gained(c0.level as nat, e0);
        self.exp = self.exp + amount;
        while self.exp >= self.exp_to_next_level()
            invariant
                self.level >= c0.level >= 1,
                n0 == (self.level - c0.level) + levels_gained(self.level as nat, self.exp as nat),
                exp_left(c0.level as nat, e0) == exp_left(self.level as nat, self.exp as nat),
                self.hp == c0.hp + 20 * (self.level - c0.level),
                self.attack == c0.attack + 5 * (self.level - c0.level),
                self.defense == c0.defense + 3 * (self.level - c0.level),
                c0.level + n0 <= u32::MAX,
                c0.hp + 20 * n0 <= u32::MAX,
                c0.attack + 5 * n0 <= u32::MAX,
                c0.defense + 3 * n0 <= u32::MAX,
                self.id == c0.id,
                self.owner == c0.owner,
                self.name == c0.name,
                self.wins == c0.wins,
                self.losses == c0.losses,
                self.created_at == c0.created_at,
            decreases self.exp,
        {
            proof {
                lemma_levels_step(self.level as nat, self.exp as nat);
            }
            self.exp = self.exp - self.exp_to_next_level();
            self.level_up();
        }
    }

    fn level_up(&mut self)
        requires
            old(self).level + 1 <= u32::MAX,
            old(self).hp + 20 <= u32::MAX,
            old(self).attack + 5 <= u32::MAX,
            old(self).defense + 3 <= u32::MAX,
        ensures
            *final(self) == (Character {
                level: (old(self).level + 1) as u32,
                hp: (old(self).hp + 20) as u32,
                attack: (old(self).attack + 5) as u32,
                defense: (old(self).defense + 3) as u32,
                ..*old(self)
            }),
    {
        self.level = self.level + 1;
        self.hp = self.hp + 20;
        self.attack = self.attack + 5;
        self.defense = self.defense + 3;
    }

    /// Combat power.
    pub fn power(&self) -> (r: u32)
        requires
            power_of(*self) <= u32::MAX,
        ensures
            r == power_of(*self),
    {
        self.hp + self.attack * 10 + self.defense * 5
    }
}

/// An item that raises a character's stats when equipped.
#[derive(Debug, Clone)]
pub struct Equipment {
    pub id: u64,
    pub name: String,
    pub equipment_type: EquipmentType,
    pub rarity: Rarity,
    pub hp_bonus: u32,
    pub attack_bonus: u32,
    pub defense_bonus: u32,
}

#[derive(Debug, Clone, Copy, PartialEq, Eq, Structural)]
pub enum EquipmentType {
    Weapon,
    Armor,
    Accessory,
}

#[derive(Debug, Clone, Copy, PartialEq, Eq, Structural)]
pub enum Rarity {
    Common,
    Rare,
    Epic,
    Legendary,
}

/// Stat bonuses `(hp, attack, defense)` of an item of the given rarity.
pub open spec fn rarity_bonus(r: Rarity) -> (u32, u32, u32) {
    match r {
        Rarity::Common => (5, 2, 1),
        Rarity::Rare => (15, 8, 5),
        Rarity::Epic => (40, 20, 12),
        Rarity::Legendary => (100, 50, 30),
    }
}

/// One fight between two characters.
#[derive(Debug, Clone)]
pub struct BattleRecord {
    pub attacker_id: u64,
    pub defender_id: u64,
    pub winner_id: u64,
    pub timestamp: u64,
}

/// Game state: characters, equipment, token balances and the fight log.
pub struct GameContract {
    pub characters: KeyMap<u64, Character>,
    pub owner_characters: KeyMap<String, Vec<u64>>,
    pub next_character_id: u64,
    pub equipments: KeyMap<u64, Equipment>,
    pub character_equipments: KeyMap<u64, Vec<u64>>,
    pub next_equipment_id: u64,
    pub token_balances: KeyMap<String, u64>,
    pub battles: Vec<BattleRecord>,
}

/// The list recorded under `k`, or an empty one.
pub open spec fn list_or_empty<K>(m: Map<K, Vec<u64>>, k: K) -> Seq<u64> {
    if m.contains_key(k) {
        m[k]@
    } else {
        Seq::empty()
    }
}

/// Balances after crediting `amount` to `who`.
pub open spec fn credited(m: Map<Seq<char>, u64>, who: Seq<char>, amount: int) -> Map<Seq<char>, u64> {
    m.insert(who, (get_or_zero(m, who) + amount) as u64)
}

/// Which side wins a fight: the stronger one; on equal power the attacker
/// when the time is even.
pub open spec fn fight_winner(att: u64, def: u64, pa: int, pd: int, time: u64) -> u64 {
    if pa > pd {
        att
    } else if pd > pa {
        def
    } else if time % 2 == 0 {
        att
    } else {
        def
    }
}

/// `p` lists the indices `0..n` once each.
pub open spec fn is_permutation(p: Seq<usize>, n: int) -> bool {
    &&& p.len() == n
    &&& forall|i: int| 0 <= i < n ==> #[trigger] p[i] < n
    &&& forall|i: int, j: int| 0 <= i < j < n ==> #[trigger] p[i] != #[trigger] p[j]
}

/// `rs` is a prefix of the characters `es` ordered by `p`, and `p` orders
/// them by decreasing power.
pub open spec fn ranked(es: Seq<(u64, Character)>, p: Seq<usize>, rs: Seq<&Character>) -> bool {
    &&& is_permutation(p, es.len() as int)
    &&& forall|i: int, j: int|
        0 <= i < j < p.len() ==> power_of(es[#[trigger] p[i] as int].1) >= power_of(
            es[#[trigger] p[j] as int].1,
        )
    &&& rs.len() <= p.len()
    &&& forall|i: int| 0 <= i < rs.len() ==> *#[trigger] rs[i] == es[p[i] as int].1
}

impl GameContract {
    /// The state of a fight between `att` and `def` at `time`: characters and
    /// balances after the attacker's, then the defender's update.
    pub open spec fn fight_chars(&self, att: u64, def: u64, time: u64) -> Map<u64, Character> {
        let a = self.characters@[att];
        let d = self.characters@[def];
        let w = fight_winner(att, def, power_of(a), power_of(d), time);
        let m1 = self.characters@.insert(att, after_fight(a, w == att));
        m1.insert(def, after_fight(m1[def], w == def))
    }

    pub open spec fn fight_tokens(&self, att: u64, def: u64, time: u64) -> Map<Seq<char>, u64> {
        let a = self.characters@[att];
        let d = self.characters@[def];
        let w = fight_winner(att, def, power_of(a), power_of(d), time);
        let m1 = self.characters@.insert(att, after_fight(a, w == att));
        let t1 = if w == att {
            credited(self.token_balances@, a.owner@, 10)
        } else {
            self.token_balances@
        };
        if w == def {
            credited(t1, m1[def].owner@, 10)
        } else {
            t1
        }
    }

    /// A fight between two existing characters runs without overflow.
    pub open spec fn fight_ok(&self, att: u64, def: u64, time: u64) -> bool {
        let a = self.characters@[att];
        let d = self.characters@[def];
        let w = fight_winner(att, def, power_of(a), power_of(d), time);
        let m1 = self.characters@.insert(att, after_fight(a, w == att));
        let t1 = if w == att {
            credited(self.token_balances@, a.owner@, 10)
        } else {
            self.token_balances@
        };
        &&& power_of(a) <= u32::MAX
        &&& power_of(d) <= u32::MAX
        &&& fight_ok(a, w == att)
        &&& fight_ok(m1[def], w == def)
        &&& w == att ==> get_or_zero(self.token_balances@, a.owner@) + 10 <= u64::MAX
        &&& w == def ==> get_or_zero(t1, m1[def].owner@) + 10 <= u64::MAX
    }

    pub fn new() -> (r: Self)
        ensures
            r.characters@ == Map::<u64, Character>::empty(),
            r.owner_characters@ == Map::<Seq<char>, Vec<u64>>::empty(),
            r.next_character_id == 1,
            r.equipments@ == Map::<u64, Equipment>::empty(),
            r.character_equipments@ == Map::<u64, Vec<u64>>::empty(),
            r.next_equipment_id == 1,
            r.token_balances@ == Map::<Seq<char>, u64>::empty(),
            r.battles@.len() == 0,
    {
        GameContract {
            characters: KeyMap::new(),
            owner_characters: KeyMap::new(),
            next_character_id: 1,
            equipments: KeyMap::new(),
            character_equipments: KeyMap::new(),
            next_equipment_id: 1,
            token_balances: KeyMap::new(),
            battles: Vec::new(),
        }
    }

    /// Creates a level-1 character for `owner` and gives the owner 100 tokens.
    pub fn create_character(&mut self, owner: &str, name: &str, current_time: u64) -> (r: u64)
        requires
            old(self).next_character_id < u64::MAX,
            get_or_zero(old(self).token_balances@, owner@) + 100 <= u64::MAX,
        ensures
            r == old(self).next_character_id,
            final(self).next_character_id == r + 1,
            final(self).characters@.dom() == old(self).characters@.dom().insert(r),
            forall|k: u64| k != r && #[trigger] old(self).characters@.contains_key(k)
                ==> final(self).characters@[k] == old(self).characters@[k],
            final(self).characters@[r].id == r,
            final(self).characters@[r].owner@ == owner@,
            final(self).characters@[r].name@ == name@,
            final(self).characters@[r].level == 1,
            final(self).characters@[r].exp == 0,
            final(self).characters@[r].hp == 100,
            final(self).characters@[r].attack == 10,
            final(self).characters@[r].defense == 5,
            final(self).characters@[r].wins == 0,
            final(self).characters@[r].losses == 0,
            final(self).characters@[r].created_at == current_time,
            final(self).owner_characters@.dom() == old(self).owner_characters@.dom().insert(owner@),
            final(self).owner_characters@[owner@]@ == list_or_empty(
                old(self).owner_characters@,
                owner@,
            ).push(r),
            forall|k: Seq<char>| k != owner@ && #[trigger] old(self).owner_characters@.contains_key(k)
                ==> final(self).owner_characters@[k] == old(self).owner_characters@[k],
            final(self).token_balances@ == credited(old(self).token_balances@, owner@, 100),
            final(self).equipments@ == old(self).equipments@,
            final(self).character_equipments@ == old(self).character_equipments@,
            final(self).next_equipment_id == old(self).next_equipment_id,
            final(self).battles@ == old(self).battles@,
    {
        let id = self.next_character_id;
        let character = Character::new(id, owner.to_owned(), name.to_owned(), current_time);
        self.characters.insert(id, character);
        let key = owner.to_owned();
        match self.owner_characters.get_mut(&key) {
            Some(list) => {
                list.push(id);
            },
            None => {
                let mut list = Vec::new();
                list.push(id);
                self.owner_characters.insert(key, list);
            },
        }
        proof {
            assert(self.owner_characters@.dom() =~= old(self).owner_characters@.dom().insert(owner@));
        }
        self.next_character_id = self.next_character_id + 1;
        let b = self.token_balances.amount(owner);
        self.token_balances.set_amount(owner, b + 100);
        id
    }

    pub fn get_character(&self, id: u64) -> (r: Option<&Character>)
        ensures
            match r {
                Some(c) => self.characters@.contains_key(id) && *c == self.characters@[id],
                None => !self.characters@.contains_key(id),
            },
    {
        self.characters.get(&id)
    }

    pub fn get_character_mut(&mut self, id: u64) -> (r: Option<&mut Character>)
        ensures
            r is Some <==> old(self).characters@.contains_key(id),
            r is None ==> final(self).characters@ == old(self).characters@,
            r matches Some(c) ==> *c == old(self).characters@[id] && final(self).characters@
                == old(self).characters@.insert(id, *final(c)),
            final(self).owner_characters == old(self).owner_characters,
            final(self).next_character_id == old(self).next_character_id,
            final(self).equipments == old(self).equipments,
            final(self).character_equipments == old(self).character_equipments,
            final(self).next_equipment_id == old(self).next_equipment_id,
            final(self).token_balances == old(self).token_balances,
            final(self).battles == old(self).battles,
    {
        self.characters.get_mut(&id)
    }

    /// Mints an item whose bonuses follow its rarity.
    pub fn mint_equipment(&mut self, name: &str, equipment_type: EquipmentType, rarity: Rarity) -> (r: u64)
        requires
            old(self).next_equipment_id < u64::MAX,
        ensures
            r == old(self).next_equipment_id,
            final(self).next_equipment_id == r + 1,
            final(self).equipments@.dom() == old(self).equipments@.dom().insert(r),
            forall|k: u64| k != r && #[trigger] old(self).equipments@.contains_key(k)
                ==> final(self).equipments@[k] == old(self).equipments@[k],
            final(self).equipments@[r].id == r,
            final(self).equipments@[r].name@ == name@,
            final(self).equipments@[r].equipment_type == equipment_type,
            final(self).equipments@[r].rarity == rarity,
            (final(self).equipments@[r].hp_bonus, final(self).equipments@[r].attack_bonus,
                final(self).equipments@[r].defense_bonus) == rarity_bonus(rarity),
            final(self).characters == old(self).characters,
            final(self).owner_characters == old(self).owner_characters,
            final(self).next_character_id == old(self).next_character_id,
            final(self).character_equipments == old(self).character_equipments,
            final(self).token_balances == old(self).token_balances,
            final(self).battles == old(self).battles,
    {
        let id = self.next_equipment_id;
        let (hp_bonus, attack_bonus, defense_bonus) = match rarity {
            Rarity::Common => (5u32, 2u32, 1u32),
            Rarity::Rare => (15, 8, 5),
            Rarity::Epic => (40, 20, 12),
            Rarity::Legendary => (100, 50, 30),
        };
        let equipment = Equipment {
            id,
            name: name.to_owned(),
            equipment_type,
            rarity,
            hp_bonus,
            attack_bonus,
            defense_bonus,
        };
        let ghost old_eq = self.equipments@;
        self.equipments.insert(id, equipment);
        assert(self.equipments@.dom() =~= old_eq.dom().insert(id));
        self.next_equipment_id = self.next_equipment_id + 1;
        id
    }

    /// Puts an item on a character: its bonuses are added to the stats and
    /// the item is recorded for the character.
    pub fn equip(&mut self, character_id: u64, equipment_id: u64) -> (r: Result<(), String>)
        requires
            old(self).characters@.contains_key(character_id) && old(self).equipments@.contains_key(
                equipment_id,
            ) ==> ({
                let c = old(self).characters@[character_id];
                let e = old(self).equipments@[equipment_id];
                &&& c.hp + e.hp_bonus <= u32::MAX
                &&& c.attack + e.attack_bonus <= u32::MAX
                &&& c.defense + e.defense_bonus <= u32::MAX
            }),
        ensures
            final(self).owner_characters == old(self).owner_characters,
            final(self).next_character_id == old(self).next_character_id,
            final(self).equipments == old(self).equipments,
            final(self).next_equipment_id == old(self).next_equipment_id,
            final(self).token_balances == old(self).token_balances,
            final(self).battles == old(self).battles,
            !old(self).characters@.contains_key(character_id) ==> (r matches Err(m) && m@ == "角色不存在"@),
            old(self).characters@.contains_key(character_id) && !old(self).equipments@.contains_key(
                equipment_id,
            ) ==> (r matches Err(m) && m@ == "装备不存在"@),
            r is Ok <==> old(self).characters@.contains_key(character_id)
                && old(self).equipments@.contains_key(equipment_id),
            r is Err ==> final(self).characters == old(self).characters
                && final(self).character_equipments == old(self).character_equipments,
            r is Ok ==> {
                let c = old(self).characters@[character_id];
                let e = old(self).equipments@[equipment_id];
                &&& final(self).characters@ == old(self).characters@.insert(
                    character_id,
                    Character {
                        hp: (c.hp + e.hp_bonus) as u32,
                        attack: (c.attack + e.attack_bonus) as u32,
                        defense: (c.defense + e.defense_bonus) as u32,
                        ..c
                    },
                )
                &&& final(self).character_equipments@.dom() == old(
                    self,
                ).character_equipments@.dom().insert(character_id)
                &&& final(self).character_equipments@[character_id]@ == list_or_empty(
                    old(self).character_equipments@,
                    character_id,
                ).push(equipment_id)
                &&& forall|k: u64| k != character_id && #[trigger] old(
                    self,
                ).character_equipments@.contains_key(k) ==> final(self).character_equipments@[k]
                    == old(self).character_equipments@[k]
            },
    {
        if !self.characters.contains_key(&character_id) {
            return Err("角色不存在".to_owned());
        }
        let (hb, ab, db) = match self.equipments.get(&equipment_id) {
            Some(e) => (e.hp_bonus, e.attack_bonus, e.defense_bonus),
            None => {
                return Err("装备不存在".to_owned());
            },
        };
        match self.characters.get_mut(&character_id) {
            Some(c) => {
                c.hp = c.hp + hb;
                c.attack = c.attack + ab;
                c.defense = c.defense + db;
            },
            None => {},
        }
        match self.character_equipments.get_mut(&character_id) {
            Some(list) => {
                list.push(equipment_id);
            },
            None => {
                let mut list = Vec::new();
                list.push(equipment_id);
                self.character_equipments.insert(character_id, list);
            },
        }
        proof {
            assert(self.character_equipments@.dom() =~= old(
                self,
            ).character_equipments@.dom().insert(character_id));
        }
        Ok(())
    }

    /// Applies the outcome of a fight to one side.
    fn apply_fight(&mut self, id: u64, won: bool)
        requires
            old(self).characters@.contains_key(id),
            fight_ok(old(self).characters@[id], won),
            won ==> get_or_zero(old(self).token_balances@, old(self).characters@[id].owner@) + 10
                <= u64::MAX,
        ensures
            final(self).characters@ == old(self).characters@.insert(
                id,
                after_fight(old(self).characters@[id], won),
            ),
            final(self).token_balances@ == if won {
                credited(old(self).token_balances@, old(self).characters@[id].owner@, 10)
            } else {
                old(self).token_balances@
            },
            final(self).owner_characters == old(self).owner_characters,
            final(self).next_character_id == old(self).next_character_id,
            final(self).equipments == old(self).equipments,
            final(self).character_equipments == old(self).character_equipments,
            final(self).next_equipment_id == old(self).next_equipment_id,
            final(self).battles == old(self).battles,
    {
        let mut owner = String::new();
        match self.characters.get_mut(&id) {
            Some(c) => {
                if won {
                    c.wins = c.wins + 1;
                    c.add_exp(50);
                    owner = c.owner.clone();
                } else {
                    c.losses = c.losses + 1;
                    c.add_exp(10);
                }
            },
            None => {},
        }
        if won {
            let b = self.token_balances.amount(owner.as_str());
            self.token_balances.set_amount(owner.as_str(), b + 10);
        }
    }

    /// A fight between two characters: the stronger wins (ties are decided by
    /// the parity of `current_time`); the fight is logged, the winner gets
    /// 50 experience and 10 tokens, the loser 10 experience.
    pub fn battle(&mut self, attacker_id: u64, defender_id: u64, current_time: u64) -> (r: Result<
        u64,
        String,
    >)
        requires
            old(self).characters@.contains_key(attacker_id) && old(self).characters@.contains_key(
                defender_id,
            ) ==> old(self).fight_ok(attacker_id, defender_id, current_time),
        ensures
            final(self).owner_characters == old(self).owner_characters,
            final(self).next_character_id == old(self).next_character_id,
            final(self).equipments == old(self).equipments,
            final(self).character_equipments == old(self).character_equipments,
            final(self).next_equipment_id == old(self).next_equipment_id,
            !old(self).characters@.contains_key(attacker_id) ==> (r matches Err(m) && m@
                == "攻击者不存在"@),
            old(self).characters@.contains_key(attacker_id) && !old(self).characters@.contains_key(
                defender_id,
            ) ==> (r matches Err(m) && m@ == "防御者不存在"@),
            r is Err ==> final(self).characters == old(self).characters && final(self).token_balances
                == old(self).token_balances && final(self).battles == old(self).battles,
            r is Ok <==> old(self).characters@.contains_key(attacker_id) && old(
                self,
            ).characters@.contains_key(defender_id),
            r matches Ok(w) ==> {
                &&& w == fight_winner(
                    attacker_id,
                    defender_id,
                    power_of(old(self).characters@[attacker_id]),
                    power_of(old(self).characters@[defender_id]),
                    current_time,
                )
                &&& final(self).battles@.len() == old(self).battles@.len() + 1
                &&& final(self).battles@.drop_last() == old(self).battles@
                &&& final(self).battles@.last().attacker_id == attacker_id
                &&& final(self).battles@.last().defender_id == defender_id
                &&& final(self).battles@.last().winner_id == w
                &&& final(self).battles@.last().timestamp == current_time
                &&& final(self).characters@ == old(self).fight_chars(
                    attacker_id,
                    defender_id,
                    current_time,
                )
                &&& final(self).token_balances@ == old(self).fight_tokens(
                    attacker_id,
                    defender_id,
                    current_time,
                )
            },
    {
        let attacker = match self.characters.get(&attacker_id) {
            Some(c) => c,
            None => {
                return Err("攻击者不存在".to_owned());
            },
        };
        let defender = match self.characters.get(&defender_id) {
            Some(c) => c,
            None => {
                return Err("防御者不存在".to_owned());
            },
        };
        let attacker_power = attacker.power();
        let defender_power = defender.power();
        let winner_id = if attacker_power > defender_power {
            attacker_id
        } else if defender_power > attacker_power {
            defender_id
        } else {
            if current_time % 2 == 0 {
                attacker_id
            } else {
                defender_id
            }
        };
        self.battles.push(
            BattleRecord { attacker_id, defender_id, winner_id, timestamp: current_time },
        );
        self.apply_fight(attacker_id, winner_id == attacker_id);
        self.apply_fight(defender_id, winner_id == defender_id);
        Ok(winner_id)
    }

    /// A fight against a monster of power `50 * monster_level`: a win is
    /// worth `20 * monster_level` experience and `5 * monster_level` tokens,
    /// a loss 5 experience.
    pub fn pve_battle(&mut self, character_id: u64, monster_level: u32, current_time: u64) -> (r:
        Result<bool, String>)
        requires
            monster_level * 50 <= u32::MAX,
            old(self).characters@.contains_key(character_id) ==> ({
                let c = old(self).characters@[character_id];
                let win = power_of(c) > monster_level * 50;
                &&& power_of(c) <= u32::MAX
                &&& win ==> gain_ok(c, (monster_level * 20) as nat) && c.wins + 1 <= u32::MAX
                    && get_or_zero(old(self).token_balances@, c.owner@) + monster_level * 5
                    <= u64::MAX
                &&& !win ==> gain_ok(c, 5) && c.losses + 1 <= u32::MAX
            }),
        ensures
            final(self).owner_characters == old(self).owner_characters,
            final(self).next_character_id == old(self).next_character_id,
            final(self).equipments == old(self).equipments,
            final(self).character_equipments == old(self).character_equipments,
            final(self).next_equipment_id == old(self).next_equipment_id,
            final(self).battles == old(self).battles,
            !old(self).characters@.contains_key(character_id) ==> (r matches Err(m) && m@ == "角色不存在"@)
                && final(self).characters == old(self).characters && final(self).token_balances
                == old(self).token_balances,
            old(self).characters@.contains_key(character_id) ==> ({
                let c = old(self).characters@[character_id];
                let win = power_of(c) > monster_level * 50;
                &&& r == Ok::<bool, String>(win)
                &&& win ==> final(self).characters@ == old(self).characters@.insert(
                    character_id,
                    Character {
                        wins: (c.wins + 1) as u32,
                        ..gain_exp(c, (monster_level * 20) as nat)
                    },
                ) && final(self).token_balances@ == credited(
                    old(self).token_balances@,
                    c.owner@,
                    monster_level * 5,
                )
                &&& !win ==> final(self).characters@ == old(self).characters@.insert(
                    character_id,
                    Character { losses: (c.losses + 1) as u32, ..gain_exp(c, 5) },
                ) && final(self).token_balances == old(self).token_balances
            }),
    {
        let (power, owner) = match self.characters.get(&character_id) {
            Some(c) => (c.power(), c.owner.clone()),
            None => {
                return Err("角色不存在".to_owned());
            },
        };
        let monster_power = monster_level * 50;
        let win = power > monster_power;
        if win {
            match self.characters.get_mut(&character_id) {
                Some(c) => {
                    c.add_exp((monster_level * 20) as u64);
                    c.wins = c.wins + 1;
                },
                None => {},
            }
            let reward = monster_level * 5;
            let b = self.token_balances.amount(owner.as_str());
            self.token_balances.set_amount(owner.as_str(), b + reward as u64);
        } else {
            match self.characters.get_mut(&character_id) {
                Some(c) => {
                    c.add_exp(5);
                    c.losses = c.losses + 1;
                },
                None => {},
            }
        }
        Ok(win)
    }

    /// At most `limit` characters, strongest first: a prefix of all the
    /// characters ordered by decreasing power.
    pub fn get_leaderboard(&self, limit: usize) -> (r: Vec<&Character>)
        requires
            forall|k: u64| #[trigger] self.characters@.contains_key(k) ==> power_of(
                self.characters@[k],
            ) <= u32::MAX,
        ensures
            r@.len() == if limit < self.characters@.len() {
                limit as int
            } else {
                self.characters@.len() as int
            },
            exists|p: Seq<usize>| #[trigger] ranked(self.characters.entries(), p, r@),
    {
        let n = self.characters.len();
        let ghost es = self.characters.entries();
        let mut pw: Vec<u32> = Vec::new();
        let mut i: usize = 0;
        while i < n
            invariant
                n == es.len(),
                es == self.characters.entries(),
                i <= n,
                pw@.len() == i,
                forall|j: int| 0 <= j < i ==> #[trigger] pw@[j] == power_of(es[j].1),
                forall|k: u64| #[trigger] self.characters@.contains_key(k) ==> power_of(
                    self.characters@[k],
                ) <= u32::MAX,
            decreases n - i,
        {
            let (_, c) = self.characters.entry_at(i);
            pw.push(c.power());
            i = i + 1;
        }
        let mut order: Vec<usize> = Vec::new();
        i = 0;
        while i < n
            invariant
                n == es.len(),
                pw@.len() == n,
                i <= n,
                is_permutation(order@, i as int),
                forall|a: int, b: int|
                    0 <= a < b < order@.len() ==> pw@[#[trigger] order@[a] as int] >= pw@[
                        #[trigger] order@[b] as int],
            decreases n - i,
        {
            let mut pos: usize = 0;
            while pos < order.len() && pw[order[pos]] >= pw[i]
                invariant
                    pos <= order@.len(),
                    i < n,
                    pw@.len() == n,
                    is_permutation(order@, i as int),
                    forall|q: int| 0 <= q < pos ==> pw@[#[trigger] order@[q] as int] >= pw@[i as int],
                decreases order@.len() - pos,
            {
                pos = pos + 1;
            }
            let ghost old_order = order@;
            order.insert(pos, i);
            proof {
                assert forall|a: int, b: int|
                    0 <= a < b < order@.len() implies pw@[#[trigger] order@[a] as int] >= pw@[
                    #[trigger] order@[b] as int] by {
                    if b < pos {
                        assert(order@[a] == old_order[a] && order@[b] == old_order[b]);
                    } else if b == pos {
                        assert(order@[a] == old_order[a]);
                    } else if a < pos {
                        assert(order@[a] == old_order[a] && order@[b] == old_order[b - 1]);
                    } else if a == pos {
                        assert(order@[b] == old_order[b - 1]);
                        assert(pw@[old_order[pos as int] as int] >= pw@[old_order[b - 1] as int]
                            || b - 1 == pos);
                    } else {
                        assert(order@[a] == old_order[a - 1] && order@[b] == old_order[b - 1]);
                    }
                }
                assert forall|a: int| 0 <= a < i + 1 implies #[trigger] order@[a] < i + 1 by {
                    if a < pos {
                        assert(order@[a] == old_order[a]);
                    } else if a > pos {
                        assert(order@[a] == old_order[a - 1]);
                    }
                }
                assert forall|a: int, b: int| 0 <= a < b < i + 1 implies #[trigger] order@[a]
                    != #[trigger] order@[b] by {
                    let oa = if a < pos {
                        a
                    } else {
                        a - 1
                    };
                    let ob = if b < pos {
                        b
                    } else {
                        b - 1
                    };
                    if a != pos && b != pos {
                        assert(order@[a] == old_order[oa] && order@[b] == old_order[ob]);
                    } else if a == pos {
                        assert(order@[b] == old_order[ob]);
                    } else {
                        assert(order@[a] == old_order[oa]);
                    }
                }
            }
            i = i + 1;
        }
        let m = if limit < n {
            limit
        } else {
            n
        };
        let mut r: Vec<&Character> = Vec::new();
        let mut t: usize = 0;
        while t < m
            invariant
                m <= n,
                n == es.len(),
                es == self.characters.entries(),
                is_permutation(order@, n as int),
                t <= m,
                r@.len() == t,
                forall|q: int| 0 <= q < t ==> *#[trigger] r@[q] == es[order@[q] as int].1,
            decreases m - t,
        {
            let (_, c) = self.characters.entry_at(order[t]);
            r.push(c);
            t = t + 1;
        }
        proof {
            assert forall|a: int, b: int|
                0 <= a < b < order@.len() implies power_of(es[#[trigger] order@[a] as int].1)
                >= power_of(es[#[trigger] order@[b] as int].1) by {
                assert(pw@[order@[a] as int] >= pw@[order@[b] as int]);
            }
            assert(ranked(es, order@, r@));
        }
        r
    }

    /// Token balance of `owner`.
    pub fn token_balance(&self, owner: &str) -> (r: u64)
        ensures
            r == get_or_zero(self.token_balances@, owner@),
    {
        self.token_balances.amount(owner)
    }
}

} // verus!

verus! {

/// The leaderboard is the top of the ranking: its entries come in order of
/// decreasing power, they are distinct characters, and every character left
/// out has no more power than the last one shown.
pub proof fn lemma_leaderboard_top(es: Seq<(u64, Character)>, p: Seq<usize>, rs: Seq<&Character>)
    requires
        ranked(es, p, rs),
    ensures
        forall|i: int, j: int| 0 <= i < j < rs.len() ==> power_of(*rs[i]) >= power_of(*rs[j]),
        forall|i: int, j: int| 0 <= i < j < rs.len() ==> p[i] != p[j],
        rs.len() > 0 ==> forall|k: int|
            0 <= k < es.len() && (forall|t: int| 0 <= t < rs.len() ==> p[t] as int != k) ==> power_of(
                #[trigger] es[k].1,
            ) <= power_of(*rs[rs.len() - 1]),
{
    let n = es.len() as int;
    assert forall|i: int, j: int| 0 <= i < j < rs.len() implies power_of(*rs[i]) >= power_of(*rs[j]) by {
        assert(*rs[i] == es[p[i] as int].1);
        assert(*rs[j] == es[p[j] as int].1);
    }
    if rs.len() > 0 {
        let q = p.map_values(|x: usize| x as int);
        assert(q.no_duplicates()) by {
            assert forall|i: int, j: int| 0 <= i < q.len() && 0 <= j < q.len() && i != j implies q[i] != q[j] by {
                if i < j {
                    assert(p[i] != p[j]);
                } else {
                    assert(p[j] != p[i]);
                }
            }
        }
        q.unique_seq_to_set();
        vstd::set_lib::lemma_int_range(0, n);
        assert(q.to_set().subset_of(vstd::set_lib::set_int_range(0, n))) by {
            assert forall|x: int| q.to_set().contains(x) implies vstd::set_lib::set_int_range(0, n).contains(x) by {
                let t = choose|t: int| 0 <= t < q.len() && q[t] == x;
                assert(p[t] < n);
            }
        }
        vstd::set_lib::lemma_subset_equality(q.to_set(), vstd::set_lib::set_int_range(0, n));
        let last = rs.len() - 1;
        assert forall|k: int|
            0 <= k < es.len() && (forall|t: int| 0 <= t < rs.len() ==> p[t] as int != k) implies power_of(
                #[trigger] es[k].1,
            ) <= power_of(*rs[last]) by {
            assert(vstd::set_lib::set_int_range(0, n).contains(k));
            assert(q.to_set().contains(k));
            let t = choose|t: int| 0 <= t < q.len() && q[t] == k;
            assert(p[t] as int == k);
            if t < rs.len() {
                assert(p[t] as int != k);
            }
            assert(*rs[last] == es[p[last] as int].1);
            if t > last {
                assert(power_of(es[p[last] as int].1) >= power_of(es[p[t] as int].1));
            }
        }
    }
}

} // verus!

verus! {

/// A fight between two different characters: the winner (the stronger, or
/// on equal power the attacker at an even time) records a win and 50
/// experience, and its owner is credited 10 tokens; the loser records a
/// loss and 10 experience; every other character stays as it was.
pub proof fn lemma_battle_outcome(g: &GameContract, att: u64, def: u64, time: u64)
    requires
        att != def,
        g.characters@.contains_key(att),
        g.characters@.contains_key(def),
    ensures
        ({
            let a = g.characters@[att];
            let d = g.characters@[def];
            let w = fight_winner(att, def, power_of(a), power_of(d), time);
            let l = if w == att { def } else { att };
            &&& w == att || w == def
            &&& (power_of(a) > power_of(d) ==> w == att)
            &&& (power_of(d) > power_of(a) ==> w == def)
            &&& (power_of(a) == power_of(d) ==> (w == att <==> time % 2 == 0))
            &&& g.fight_chars(att, def, time)[w] == after_fight(g.characters@[w], true)
            &&& g.fight_chars(att, def, time)[l] == after_fight(g.characters@[l], false)
            &&& g.fight_tokens(att, def, time) == credited(
                g.token_balances@,
                g.characters@[w].owner@,
                10,
            )
            &&& g.fight_chars(att, def, time).dom() == g.characters@.dom()
            &&& forall|k: u64|
                k != att && k != def && #[trigger] g.characters@.contains_key(k) ==> g.fight_chars(
                    att,
                    def,
                    time,
                )[k] == g.characters@[k]
        }),
{
    let a = g.characters@[att];
    let d = g.characters@[def];
    let w = fight_winner(att, def, power_of(a), power_of(d), time);
    let m1 = g.characters@.insert(att, after_fight(a, w == att));
    assert(m1[def] == d);
    assert(g.fight_chars(att, def, time).dom() =~= g.characters@.dom());
}

} // verus!
