use yrust_chain::contracts::game::{GameContract, EquipmentType, Rarity};

#[test]
fn test_create_character() {
    let mut game = GameContract::new();
    let id = game.create_character("alice", "Hero", 1000);
    let c = game.get_character(id).unwrap();
    assert_eq!(c.name, "Hero");
    assert_eq!(c.level, 1);
}

#[test]
fn test_level_up() {
    let mut game = GameContract::new();
    let id = game.create_character("alice", "Hero", 1000);
    {
        let c = game.get_character_mut(id).unwrap();
        c.add_exp(150);
    }
    let c = game.get_character(id).unwrap();
    assert_eq!(c.level, 2);
}

#[test]
fn game_multi_level_and_power() {
    let mut game = GameContract::new();
    let id = game.create_character("a", "H", 0);
    let c = game.get_character_mut(id).unwrap();
    c.add_exp(350);
    assert_eq!(c.level, 3);
    assert_eq!(c.exp, 50);
    assert_eq!(c.hp, 140);
    assert_eq!(c.power(), 140 + 20 * 10 + 11 * 5);
}

#[test]
fn game_battles_and_leaderboard() {
    let mut game = GameContract::new();
    let a = game.create_character("Alice", "A", 1000);
    let b = game.create_character("Bob", "B", 1000);
    let sword = game.mint_equipment("s", EquipmentType::Weapon, Rarity::Epic);
    game.equip(a, sword).unwrap();
    assert_eq!(game.equip(99, sword), Err("角色不存在".to_string()));
    assert_eq!(game.equip(a, 99), Err("装备不存在".to_string()));
    assert_eq!(game.battle(a, b, 1300).unwrap(), a);
    assert_eq!(game.token_balance("Alice"), 110);
    assert_eq!(game.token_balance("Bob"), 100);
    assert_eq!(game.battles.len(), 1);
    assert_eq!(game.pve_battle(b, 5, 1400).unwrap(), false);
    assert_eq!(game.pve_battle(a, 3, 1400).unwrap(), true);
    assert_eq!(game.token_balance("Alice"), 125);
    let board = game.get_leaderboard(10);
    assert_eq!(board.len(), 2);
    assert_eq!(board[0].id, a);
    assert_eq!(game.get_leaderboard(1).len(), 1);
}

#[test]
fn battle_between_equals_goes_by_time_parity() {
    let mut game = GameContract::new();
    let a = game.create_character("Ann", "A", 1000);
    let b = game.create_character("Ben", "B", 1000);
    assert_eq!(game.battle(a, b, 2000).unwrap(), a);
    let ca = game.characters.get(&a).unwrap();
    let cb = game.characters.get(&b).unwrap();
    assert_eq!((ca.wins, ca.losses, ca.exp), (1, 0, 50));
    assert_eq!((cb.wins, cb.losses, cb.exp), (0, 1, 10));
    assert_eq!(game.token_balance("Ann"), 110);
    assert_eq!(game.token_balance("Ben"), 100);
    assert_eq!(game.battle(a, b, 2001).unwrap(), b);
    assert_eq!(game.token_balance("Ben"), 110);
    let last = &game.battles[1];
    assert_eq!((last.attacker_id, last.defender_id, last.winner_id, last.timestamp), (a, b, b, 2001));
    assert_eq!(game.battle(a, 77, 2002), Err("防御者不存在".to_string()));
    assert_eq!(game.battles.len(), 2);
}
