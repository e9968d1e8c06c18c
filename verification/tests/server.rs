use spacetime_client_sdk::server::{
    create_new_player, filter_by_entity_id, move_player, PlayerComponent,
};

fn me() -> Vec<u8> {
    vec![1; 32]
}

fn you() -> Vec<u8> {
    vec![2; 32]
}

#[test]
fn a_player_is_created_once() {
    let mut table = Vec::new();
    assert!(create_new_player(&mut table, me(), 100, 0, 0));
    assert!(create_new_player(&mut table, me(), 101, 1, 3));
    assert!(!create_new_player(&mut table, you(), 102, 1, 9));
    assert_eq!(
        table,
        vec![
            PlayerComponent { entity_id: 0, owner_id: me(), input: 0 },
            PlayerComponent { entity_id: 1, owner_id: me(), input: 3 },
        ]
    );
    assert_eq!(filter_by_entity_id(&table, 1), Some(1));
    assert_eq!(filter_by_entity_id(&table, 2), None);
}

#[test]
fn a_move_sets_input_and_owner() {
    let mut table = Vec::new();
    create_new_player(&mut table, me(), 0, 0, 0);
    create_new_player(&mut table, me(), 0, 2, 0);
    assert!(move_player(&mut table, me(), 2, 17));
    assert!(!move_player(&mut table, you(), 0, 4));
    assert!(move_player(&mut table, you(), 0, 5));
    assert_eq!(
        table,
        vec![
            PlayerComponent { entity_id: 0, owner_id: you(), input: 5 },
            PlayerComponent { entity_id: 2, owner_id: me(), input: 17 },
        ]
    );
}
