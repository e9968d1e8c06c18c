use spacetime_client_sdk::game::{
    create_new_player, direction, fire, input, move_player, Animation, Bullet, BulletReady, Facing,
    Lobby, LobbyStatus, MainCamera, Player, PlayerId, SpriteFrame, SpritesheetAnimator,
    INPUT_DOWN, INPUT_FIRE, INPUT_LEFT, INPUT_RIGHT, INPUT_UP, SPRITE_FRAMES,
};
use spacetime_client_sdk::messages::{
    SpaceDbRequest, SubscriptionUpdateJson, TableOp, TableRowOperationJson, TableUpdateJson,
    TypeValue,
};
use spacetime_client_sdk::web_socket::ConnectionHandle;

fn row(first: TypeValue) -> TableRowOperationJson {
    TableRowOperationJson {
        op: TableOp::Insert,
        row_pk: "k".to_string(),
        row: vec![first, TypeValue::U8(0)],
    }
}

fn table(name: &str, ops: Vec<TableRowOperationJson>) -> TableUpdateJson {
    TableUpdateJson {
        table_id: 1,
        table_name: name.to_string(),
        table_row_operations: ops,
    }
}

#[test]
fn players_and_their_indices() {
    assert_eq!(PlayerId::One.as_idx(), 0);
    assert_eq!(PlayerId::Two.as_idx(), 1);
    assert_eq!(PlayerId::default(), PlayerId::One);
    let player = Player::new(PlayerId::Two);
    assert_eq!(player.input, 0);
    assert_eq!(player.handle, PlayerId::Two);
    assert_eq!(player.as_idx(), 1);
}

#[test]
fn input_bits_pack_and_unpack() {
    assert_eq!(INPUT_UP, 1 << 0);
    assert_eq!(INPUT_DOWN, 1 << 1);
    assert_eq!(INPUT_LEFT, 1 << 2);
    assert_eq!(INPUT_RIGHT, 1 << 3);
    assert_eq!(INPUT_FIRE, 1 << 4);
    assert_eq!(input(false, false, false, false, false), 0);
    assert_eq!(input(true, false, false, false, false), 1);
    assert_eq!(input(true, true, true, true, true), 31);
    assert_eq!(input(false, true, false, true, false), 10);
    assert!(fire(16));
    assert!(fire(31));
    assert!(!fire(15));
    assert!(!fire(0));
    assert!(fire(input(false, false, false, false, true)));
    assert!(!fire(input(true, true, true, true, false)));
}

#[test]
fn direction_of_input() {
    let idle_left = Animation::Idle(Facing::Left);
    assert_eq!(direction(idle_left, 0), ((0, 0), Animation::Run(Facing::Left)));
    assert_eq!(
        direction(idle_left, INPUT_UP),
        ((0, 1), Animation::Run(Facing::Left))
    );
    assert_eq!(
        direction(idle_left, INPUT_DOWN | INPUT_RIGHT),
        ((1, -1), Animation::Run(Facing::Right))
    );
    assert_eq!(
        direction(Animation::Fire(Facing::Right), INPUT_LEFT),
        ((-1, 0), Animation::Run(Facing::Left))
    );
    assert_eq!(
        direction(Animation::Dead(Facing::Right), INPUT_LEFT | INPUT_RIGHT | INPUT_UP | INPUT_DOWN),
        ((0, 0), Animation::Run(Facing::Left))
    );
}

#[test]
fn animations() {
    assert_eq!(Animation::Idle(Facing::Left).frames(), vec![-2]);
    assert_eq!(Animation::Idle(Facing::Right).frames(), vec![2]);
    assert_eq!(Animation::Run(Facing::Left).frames(), vec![-1, -2, -3]);
    assert_eq!(Animation::Run(Facing::Right).frames(), vec![1, 2, 3]);
    assert_eq!(Animation::Fire(Facing::Left).frames(), vec![-1, -4]);
    assert_eq!(Animation::Fire(Facing::Right).frames(), vec![1, 4]);
    assert_eq!(Animation::Dead(Facing::Left).frames(), vec![-5]);
    assert_eq!(Animation::Dead(Facing::Right).frames(), vec![5]);
    assert_eq!(Animation::Run(Facing::Left).facing(), Facing::Left);
    assert_eq!(Animation::Dead(Facing::Right).facing(), Facing::Right);
    assert_eq!(
        Animation::Fire(Facing::Left).change(Facing::Right),
        Animation::Fire(Facing::Right)
    );
    assert_eq!(
        Animation::Idle(Facing::Left).change(Facing::Left),
        Animation::Idle(Facing::Left)
    );
}

#[test]
fn animator_steps_through_the_frames() {
    assert_eq!(SPRITE_FRAMES, 5);
    let mut animator = SpritesheetAnimator::new(PlayerId::One);
    assert_eq!(animator.animation(), Animation::Idle(Facing::Left));
    assert_eq!(animator.cur_frame_idx(), 0);
    assert_eq!(animator.player(), PlayerId::One);
    assert_eq!(
        SpritesheetAnimator::new(PlayerId::Two).animation(),
        Animation::Idle(Facing::Right)
    );
    assert_eq!(animator.advance(), SpriteFrame { index: 1, flip_x: true });
    assert_eq!(animator.cur_frame_idx(), 0);

    assert_eq!(
        animator.set_state(Animation::Run(Facing::Right)),
        SpriteFrame { index: 0, flip_x: false }
    );
    assert_eq!(animator.advance(), SpriteFrame { index: 1, flip_x: false });
    assert_eq!(animator.advance(), SpriteFrame { index: 2, flip_x: false });
    assert_eq!(animator.cur_frame_idx(), 2);
    assert_eq!(animator.advance(), SpriteFrame { index: 0, flip_x: false });
    assert_eq!(animator.cur_frame_idx(), 0);

    assert_eq!(
        animator.set_state(Animation::Fire(Facing::Left)),
        SpriteFrame { index: 0, flip_x: true }
    );
    assert_eq!(animator.advance(), SpriteFrame { index: 3, flip_x: true });
    assert_eq!(
        animator.set_state(Animation::Dead(Facing::Right)),
        SpriteFrame { index: 4, flip_x: false }
    );
    assert_eq!(animator.player(), PlayerId::One);
}

#[test]
fn bullets_reload_when_fire_is_let_go() {
    let mut ready = BulletReady(true);
    assert!(ready.try_fire(INPUT_FIRE));
    assert_eq!(ready, BulletReady(false));
    assert!(!ready.try_fire(INPUT_FIRE));
    ready.reload(INPUT_FIRE);
    assert_eq!(ready, BulletReady(false));
    ready.reload(INPUT_UP);
    assert_eq!(ready, BulletReady(true));
    assert!(!ready.try_fire(INPUT_UP));
    assert_eq!(ready, BulletReady(true));
    assert_eq!(Bullet, Bullet::default());
    assert_eq!(MainCamera, MainCamera);
}

#[test]
fn requests_of_the_game() {
    assert_eq!(
        create_new_player(PlayerId::Two),
        SpaceDbRequest::FunctionCall {
            name: "create_new_player".to_string(),
            args: vec![TypeValue::U32(1), TypeValue::U8(0)],
        }
    );
    assert_eq!(
        move_player(PlayerId::One, 17),
        SpaceDbRequest::FunctionCall {
            name: "move_player".to_string(),
            args: vec![TypeValue::U32(0), TypeValue::U8(17)],
        }
    );
}

#[test]
fn rows_name_players() {
    assert_eq!(
        PlayerId::from_row(&vec![TypeValue::I8(0), TypeValue::U8(9)]),
        Some(PlayerId::One)
    );
    assert_eq!(PlayerId::from_row(&vec![TypeValue::I8(1)]), Some(PlayerId::Two));
    assert_eq!(PlayerId::from_row(&vec![TypeValue::I8(2)]), None);
    assert_eq!(PlayerId::from_row(&vec![TypeValue::I8(-1)]), None);
    assert_eq!(PlayerId::from_row(&vec![TypeValue::U8(0)]), None);
    assert_eq!(PlayerId::from_row(&vec![]), None);
}

#[test]
fn the_lobby_fills() {
    let a = ConnectionHandle { uuid: 1 };
    let b = ConnectionHandle { uuid: 2 };
    let mut lobby = Lobby::new();
    assert_eq!(lobby.status(), LobbyStatus::WaitingForPlayerOne);
    lobby.join(PlayerId::Two, a);
    assert_eq!(lobby.status(), LobbyStatus::WaitingForPlayerTwo);
    lobby.join(PlayerId::Two, b);
    assert_eq!(lobby, Lobby { one: None, two: Some(b) });
    assert_eq!(lobby.status(), LobbyStatus::WaitingForPlayerTwo);
    lobby.join(PlayerId::One, a);
    assert_eq!(lobby.status(), LobbyStatus::Ready);
}

#[test]
fn the_lobby_reads_updates() {
    let h = ConnectionHandle { uuid: 7 };
    let update = SubscriptionUpdateJson {
        table_updates: vec![
            table("Other", vec![row(TypeValue::String("not a player".to_string()))]),
            table("PlayerComponent", vec![row(TypeValue::I8(0))]),
            table("PlayerComponent", vec![row(TypeValue::I8(1)), row(TypeValue::I8(0))]),
        ],
    };
    let mut lobby = Lobby::new();
    assert!(lobby.read_update(&update, h));
    assert_eq!(lobby, Lobby { one: Some(h), two: Some(h) });

    let broken = SubscriptionUpdateJson {
        table_updates: vec![
            table("PlayerComponent", vec![row(TypeValue::I8(1))]),
            table("PlayerComponent", vec![row(TypeValue::I8(3))]),
        ],
    };
    let mut lobby = Lobby::new();
    assert!(!lobby.read_update(&broken, h));
    assert_eq!(lobby, Lobby::new());
    assert!(!lobby.read_rows(&vec![row(TypeValue::I8(1)), row(TypeValue::Bool(true))], h));
    assert_eq!(lobby, Lobby::new());
    assert!(lobby.read_rows(&vec![row(TypeValue::I8(1))], h));
    assert_eq!(lobby, Lobby { one: None, two: Some(h) });
}
