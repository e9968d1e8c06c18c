//! What a two-player game built on the client decides from plain values:
//! input bits, the players that have joined, and the frames of an animation.
//! Reading keys, drawing and moving are not in this library.

use vstd::prelude::*;
use crate::json::str_eq;
use crate::messages::{
    SpaceDbRequest, SpaceDbRequestView, SubscriptionUpdateJson, TableRowOperationJson,
    TableUpdateJson, TypeValue, TypeValueView,
};
use crate::web_socket::ConnectionHandle;

verus! {

pub const INPUT_UP: u8 = 1;

pub const INPUT_DOWN: u8 = 2;

pub const INPUT_LEFT: u8 = 4;

pub const INPUT_RIGHT: u8 = 8;

pub const INPUT_FIRE: u8 = 16;

/// Sprites in a sheet.
pub const SPRITE_FRAMES: usize = 5;

/// One of the two players.
#[derive(Debug, Copy, Clone, PartialEq, Eq, Hash, Structural)]
pub enum PlayerId {
    One,
    Two,
}

impl Default for PlayerId {
    fn default() -> (r: Self)
        ensures
            r == PlayerId::One,
    {
        Self::One
    }
}

impl PlayerId {
    pub open spec fn index(self) -> int {
        match self {
            PlayerId::One => 0,
            PlayerId::Two => 1,
        }
    }

    pub fn as_idx(&self) -> (r: usize)
        ensures
            r == self.index(),
    {
        match self {
            PlayerId::One => 0,
            PlayerId::Two => 1,
        }
    }

    /// The player that a row of the player table is about: its first value
    /// must be the 8-bit number 0 or 1.
    pub open spec fn of_row(row: Seq<TypeValueView>) -> Option<PlayerId> {
        if row.len() == 0 {
            None
        } else {
            match row[0] {
                TypeValueView::I8(n) => if n == 0 {
                    Some(PlayerId::One)
                } else if n == 1 {
                    Some(PlayerId::Two)
                } else {
                    None
                },
                _ => None,
            }
        }
    }

    /// The player that a row of the player table is about, if it names one.
    pub fn from_row(row: &Vec<TypeValue>) -> (r: Option<PlayerId>)
        ensures
            r == PlayerId::of_row(crate::messages::values_view(row@)),
    {
        if row.len() == 0 {
            None
        } else {
            match row[0].as_i8() {
                Some(0) => Some(PlayerId::One),
                Some(1) => Some(PlayerId::Two),
                _ => None,
            }
        }
    }
}

/// A player and the input that was last seen of them: four directions and
/// fire, one bit each.
#[derive(Debug, Clone, Copy, PartialEq, Eq, Structural)]
pub struct Player {
    pub handle: PlayerId,
    pub input: u8,
}

impl Player {
    pub fn new(handle: PlayerId) -> (r: Self)
        ensures
            r == (Player { handle, input: 0 }),
    {
        Self { handle, input: 0 }
    }

    pub fn as_idx(&self) -> (r: usize)
        ensures
            r == self.handle.index(),
    {
        self.handle.as_idx()
    }
}

/// The input bits of the keys that are held.
pub open spec fn input_bits(up: bool, down: bool, left: bool, right: bool, fire: bool) -> u8 {
    (if up {
        INPUT_UP
    } else {
        0u8
    }) | (if down {
        INPUT_DOWN
    } else {
        0u8
    }) | (if left {
        INPUT_LEFT
    } else {
        0u8
    }) | (if right {
        INPUT_RIGHT
    } else {
        0u8
    }) | (if fire {
        INPUT_FIRE
    } else {
        0u8
    })
}

/// Packs the keys that are held into input bits.
pub fn input(up: bool, down: bool, left: bool, right: bool, fire: bool) -> (r: u8)
    ensures
        r == input_bits(up, down, left, right, fire),
{
    (if up {
        INPUT_UP
    } else {
        0u8
    }) | (if down {
        INPUT_DOWN
    } else {
        0u8
    }) | (if left {
        INPUT_LEFT
    } else {
        0u8
    }) | (if right {
        INPUT_RIGHT
    } else {
        0u8
    }) | (if fire {
        INPUT_FIRE
    } else {
        0u8
    })
}

/// Whether the fire bit is set.
pub open spec fn fires(input: u8) -> bool {
    input & INPUT_FIRE != 0
}

pub fn fire(input: u8) -> (r: bool)
    ensures
        r == fires(input),
{
    input & INPUT_FIRE != 0
}

/// Each key comes back out of the bits it was packed into.
pub proof fn lemma_input_bits_unpack(up: bool, down: bool, left: bool, right: bool, fire: bool)
    ensures
        fires(input_bits(up, down, left, right, fire)) == fire,
        (input_bits(up, down, left, right, fire) & INPUT_UP != 0) == up,
        (input_bits(up, down, left, right, fire) & INPUT_DOWN != 0) == down,
        (input_bits(up, down, left, right, fire) & INPUT_LEFT != 0) == left,
        (input_bits(up, down, left, right, fire) & INPUT_RIGHT != 0) == right,
{
    let bits = input_bits(up, down, left, right, fire);
    assert(bits == (if up {
        1u8
    } else {
        0u8
    }) | (if down {
        2u8
    } else {
        0u8
    }) | (if left {
        4u8
    } else {
        0u8
    }) | (if right {
        8u8
    } else {
        0u8
    }) | (if fire {
        16u8
    } else {
        0u8
    }));
    assert((bits & 16u8 != 0) == fire && (bits & 1u8 != 0) == up && (bits & 2u8 != 0) == down && (
    bits & 4u8 != 0) == left && (bits & 8u8 != 0) == right) by (bit_vector)
        requires
            bits == (if up {
                1u8
            } else {
                0u8
            }) | (if down {
                2u8
            } else {
                0u8
            }) | (if left {
                4u8
            } else {
                0u8
            }) | (if right {
                8u8
            } else {
                0u8
            }) | (if fire {
                16u8
            } else {
                0u8
            }),
    ;
}

/// Whether a bullet may be fired: it may again once fire was let go of.
#[derive(Debug, Clone, Copy, PartialEq, Eq, Structural)]
pub struct BulletReady(pub bool);

impl BulletReady {
    /// Makes ready again where fire is not held.
    pub fn reload(&mut self, input: u8)
        ensures
            final(self).0 == (old(self).0 || !fires(input)),
    {
        if !fire(input) {
            self.0 = true;
        }
    }

    /// Fires where fire is held and a bullet is ready, and then is no longer
    /// ready. Says whether it fired.
    pub fn try_fire(&mut self, input: u8) -> (fired: bool)
        ensures
            fired == (fires(input) && old(self).0),
            final(self).0 == (old(self).0 && !fired),
    {
        if fire(input) && self.0 {
            self.0 = false;
            true
        } else {
            false
        }
    }
}

/// Marks a bullet.
#[derive(Debug, Clone, Copy, PartialEq, Eq, Default, Structural)]
pub struct Bullet;

/// Marks the camera that follows the local player.
#[derive(Debug, Clone, Copy, PartialEq, Eq, Structural)]
pub struct MainCamera;

#[derive(Debug, Copy, Clone, Eq, PartialEq, Structural)]
pub enum Facing {
    Left,
    Right,
}

#[derive(Debug, Copy, Clone, Eq, PartialEq, Structural)]
pub enum Animation {
    Idle(Facing),
    Run(Facing),
    Fire(Facing),
    Dead(Facing),
}

impl Animation {
    /// The frames of the animation, as indices into the sheet that start at
    /// 1; a negative index is the same frame, mirrored.
    pub open spec fn frames_spec(self) -> Seq<i8> {
        match self {
            Animation::Idle(Facing::Left) => seq![-2i8],
            Animation::Idle(Facing::Right) => seq![2i8],
            Animation::Run(Facing::Left) => seq![-1i8, -2i8, -3i8],
            Animation::Run(Facing::Right) => seq![1i8, 2i8, 3i8],
            Animation::Fire(Facing::Left) => seq![-1i8, -4i8],
            Animation::Fire(Facing::Right) => seq![1i8, 4i8],
            Animation::Dead(Facing::Left) => seq![-5i8],
            Animation::Dead(Facing::Right) => seq![5i8],
        }
    }

    pub fn frames(&self) -> (r: Vec<i8>)
        ensures
            r@ == self.frames_spec(),
    {
        match self {
            Animation::Idle(dir) => match dir {
                Facing::Left => vec![-2],
                Facing::Right => vec![2],
            },
            Animation::Run(dir) => match dir {
                Facing::Left => vec![-1, -2, -3],
                Facing::Right => vec![1, 2, 3],
            },
            Animation::Fire(dir) => match dir {
                Facing::Left => vec![-1, -4],
                Facing::Right => vec![1, 4],
            },
            Animation::Dead(dir) => match dir {
                Facing::Left => vec![-5],
                Facing::Right => vec![5],
            },
        }
    }

    pub open spec fn facing_spec(self) -> Facing {
        match self {
            Animation::Idle(x) => x,
            Animation::Run(x) => x,
            Animation::Fire(x) => x,
            Animation::Dead(x) => x,
        }
    }

    pub fn facing(&self) -> (r: Facing)
        ensures
            r == self.facing_spec(),
    {
        match self {
            Animation::Idle(x) => *x,
            Animation::Run(x) => *x,
            Animation::Fire(x) => *x,
            Animation::Dead(x) => *x,
        }
    }

    /// The same animation, facing `to`.
    pub open spec fn change_spec(self, to: Facing) -> Animation {
        match self {
            Animation::Idle(_) => Animation::Idle(to),
            Animation::Run(_) => Animation::Run(to),
            Animation::Fire(_) => Animation::Fire(to),
            Animation::Dead(_) => Animation::Dead(to),
        }
    }

    pub fn change(&self, to: Facing) -> (r: Self)
        ensures
            r == self.change_spec(to),
    {
        match self {
            Animation::Idle(_) => Animation::Idle(to),
            Animation::Run(_) => Animation::Run(to),
            Animation::Fire(_) => Animation::Fire(to),
            Animation::Dead(_) => Animation::Dead(to),
        }
    }

    /// Every animation has a frame; every frame is a sprite of the sheet,
    /// from 1 to [`SPRITE_FRAMES`], or its mirror image; and mirroring is
    /// what facing left is.
    pub proof fn lemma_frames(self)
        ensures
            self.frames_spec().len() >= 1,
            forall|i: int|
                0 <= i < self.frames_spec().len() ==> {
                    let f = #[trigger] self.frames_spec()[i];
                    &&& f != 0
                    &&& -(SPRITE_FRAMES as int) <= f <= SPRITE_FRAMES as int
                    &&& (f < 0) == (self.facing_spec() == Facing::Left)
                },
    {
    }
}

/// Where to go, one step or none along each axis, and how to look, for the
/// input bits of a player: running, turned to the side that is held, the
/// left one where both are.
pub open spec fn direction_spec(animation: Animation, input: u8) -> ((int, int), Animation) {
    let up: int = if input & INPUT_UP != 0 {
        1
    } else {
        0
    };
    let down: int = if input & INPUT_DOWN != 0 {
        1
    } else {
        0
    };
    let right: int = if input & INPUT_RIGHT != 0 {
        1
    } else {
        0
    };
    let left: int = if input & INPUT_LEFT != 0 {
        1
    } else {
        0
    };
    let facing = if left == 1 {
        Facing::Left
    } else if right == 1 {
        Facing::Right
    } else {
        animation.facing_spec()
    };
    ((right - left, up - down), Animation::Run(facing))
}

pub fn direction(animation: Animation, input: u8) -> (r: ((i8, i8), Animation))
    ensures
        (r.0.0 as int, r.0.1 as int) == direction_spec(animation, input).0,
        r.1 == direction_spec(animation, input).1,
{
    let mut x: i8 = 0;
    let mut y: i8 = 0;
    let mut animation = Animation::Run(animation.facing());
    if input & INPUT_UP != 0 {
        y += 1;
    }
    if input & INPUT_DOWN != 0 {
        y -= 1;
    }
    if input & INPUT_RIGHT != 0 {
        x += 1;
        animation = animation.change(Facing::Right);
    }
    if input & INPUT_LEFT != 0 {
        x -= 1;
        animation = animation.change(Facing::Left);
    }
    ((x, y), animation)
}

/// The sprite to draw: its place in the sheet, from 0, and whether it is
/// mirrored.
#[derive(Debug, Clone, Copy, PartialEq, Eq, Structural)]
pub struct SpriteFrame {
    pub index: usize,
    pub flip_x: bool,
}

/// The sprite of a frame index.
pub open spec fn sprite_of(texture_idx: i8) -> SpriteFrame {
    SpriteFrame {
        index: ((if texture_idx < 0 {
            -texture_idx
        } else {
            texture_idx as int
        }) - 1) as usize,
        flip_x: texture_idx < 0,
    }
}

fn sprite(texture_idx: i8) -> (r: SpriteFrame)
    requires
        texture_idx != 0,
        -5 <= texture_idx <= 5,
    ensures
        r == sprite_of(texture_idx),
        r.index < SPRITE_FRAMES,
{
    let magnitude: i8 = if texture_idx < 0 {
        -texture_idx
    } else {
        texture_idx
    };
    SpriteFrame { index: (magnitude - 1) as usize, flip_x: texture_idx < 0 }
}

/// Steps through the frames of a player's animation.
#[derive(Debug, Clone, Copy, PartialEq, Eq)]
pub struct SpritesheetAnimator {
    animation: Animation,
    cur_frame_idx: usize,
    player: PlayerId,
}

impl SpritesheetAnimator {
    #[verifier::type_invariant]
    spec fn in_range(&self) -> bool {
        self.cur_frame_idx < self.animation.frames_spec().len()
    }

    pub closed spec fn animation_spec(&self) -> Animation {
        self.animation
    }

    pub closed spec fn frame_spec(&self) -> int {
        self.cur_frame_idx as int
    }

    pub closed spec fn player_spec(&self) -> PlayerId {
        self.player
    }

    /// An animator for `player`, idle at its first frame: player one looks
    /// left, player two right.
    pub fn new(player: PlayerId) -> (r: Self)
        ensures
            r.player_spec() == player,
            r.frame_spec() == 0,
            r.animation_spec() == Animation::Idle(
                match player {
                    PlayerId::One => Facing::Left,
                    PlayerId::Two => Facing::Right,
                },
            ),
    {
        let dir = match player {
            PlayerId::One => Facing::Left,
            PlayerId::Two => Facing::Right,
        };
        Self { animation: Animation::Idle(dir), cur_frame_idx: 0, player }
    }

    pub fn animation(&self) -> (r: Animation)
        ensures
            r == self.animation_spec(),
    {
        self.animation
    }

    pub fn player(&self) -> (r: PlayerId)
        ensures
            r == self.player_spec(),
    {
        self.player
    }

    pub fn cur_frame_idx(&self) -> (r: usize)
        ensures
            r == self.frame_spec(),
            r < self.animation_spec().frames_spec().len(),
    {
        proof {
            use_type_invariant(self);
        }
        self.cur_frame_idx
    }

    /// Starts `animation` at its first frame, and gives the sprite of that
    /// frame.
    pub fn set_state(&mut self, animation: Animation) -> (r: SpriteFrame)
        ensures
            final(self).animation_spec() == animation,
            final(self).frame_spec() == 0,
            final(self).player_spec() == old(self).player_spec(),
            r == sprite_of(animation.frames_spec()[0]),
            r.index < SPRITE_FRAMES,
    {
        proof {
            animation.lemma_frames();
        }
        let player = self.player;
        *self = SpritesheetAnimator { animation, cur_frame_idx: 0, player };
        let frames = animation.frames();
        sprite(frames[0])
    }

    /// Moves to the next frame, the first one after the last, and gives its
    /// sprite.
    pub fn advance(&mut self) -> (r: SpriteFrame)
        ensures
            final(self).animation_spec() == old(self).animation_spec(),
            final(self).player_spec() == old(self).player_spec(),
            final(self).frame_spec() == (if old(self).frame_spec() + 1 >= old(
                self,
            ).animation_spec().frames_spec().len() {
                0
            } else {
                old(self).frame_spec() + 1
            }),
            r == sprite_of(final(self).animation_spec().frames_spec()[final(self).frame_spec()]),
            r.index < SPRITE_FRAMES,
    {
        proof {
            use_type_invariant(&*self);
            self.animation.lemma_frames();
        }
        let frames = self.animation.frames();
        let num_frames = frames.len();
        let next_frame_idx: usize = if self.cur_frame_idx + 1 >= num_frames {
            0
        } else {
            self.cur_frame_idx + 1
        };
        let texture_idx = frames[next_frame_idx];
        let animation = self.animation;
        let player = self.player;
        *self = SpritesheetAnimator { animation, cur_frame_idx: next_frame_idx, player };
        sprite(texture_idx)
    }
}

/// The request that adds a player to the game.
pub open spec fn create_new_player_spec(player: PlayerId) -> SpaceDbRequestView {
    SpaceDbRequestView::FunctionCall {
        name: "create_new_player"@,
        args: seq![TypeValueView::U32(player.index() as u32), TypeValueView::U8(0)],
    }
}

/// Builds the request that adds a player to the game.
pub fn create_new_player(player: PlayerId) -> (r: SpaceDbRequest)
    ensures
        r@ == create_new_player_spec(player),
{
    let mut args: Vec<TypeValue> = Vec::new();
    args.push(TypeValue::U32(player.as_idx() as u32));
    args.push(TypeValue::U8(0));
    let r = SpaceDbRequest::FunctionCall { name: "create_new_player".to_owned(), args };
    assert(r@->FunctionCall_args =~= create_new_player_spec(player)->FunctionCall_args);
    r
}

/// The request that reports the input of a player.
pub open spec fn move_player_spec(player: PlayerId, input: u8) -> SpaceDbRequestView {
    SpaceDbRequestView::FunctionCall {
        name: "move_player"@,
        args: seq![TypeValueView::U32(player.index() as u32), TypeValueView::U8(input)],
    }
}

/// Builds the request that reports the input of a player.
pub fn move_player(player: PlayerId, input: u8) -> (r: SpaceDbRequest)
    ensures
        r@ == move_player_spec(player, input),
{
    let mut args: Vec<TypeValue> = Vec::new();
    args.push(TypeValue::U32(player.as_idx() as u32));
    args.push(TypeValue::U8(input));
    let r = SpaceDbRequest::FunctionCall { name: "move_player".to_owned(), args };
    assert(r@->FunctionCall_args =~= move_player_spec(player, input)->FunctionCall_args);
    r
}

/// The players that have joined, each with the connection that reported it.
#[derive(Debug, Clone, Copy, PartialEq, Eq, Structural)]
pub struct Lobby {
    pub one: Option<ConnectionHandle>,
    pub two: Option<ConnectionHandle>,
}

/// How far the lobby is.
#[derive(Debug, Clone, Copy, PartialEq, Eq, Structural)]
pub enum LobbyStatus {
    WaitingForPlayerOne,
    WaitingForPlayerTwo,
    Ready,
}

impl Lobby {
    /// The lobby after `player` was reported by `handle`: the latest report
    /// of a player counts.
    pub open spec fn joined(self, player: PlayerId, handle: ConnectionHandle) -> Lobby {
        match player {
            PlayerId::One => Lobby { one: Some(handle), ..self },
            PlayerId::Two => Lobby { two: Some(handle), ..self },
        }
    }

    /// The number of players that have joined.
    pub open spec fn count(self) -> int {
        (if self.one is Some {
            1int
        } else {
            0int
        }) + (if self.two is Some {
            1int
        } else {
            0int
        })
    }

    /// Ready with both players; else waiting, for player one with nobody
    /// there, for player two with one of them there.
    pub open spec fn status_spec(self) -> LobbyStatus {
        if self.count() == 0 {
            LobbyStatus::WaitingForPlayerOne
        } else if self.count() == 1 {
            LobbyStatus::WaitingForPlayerTwo
        } else {
            LobbyStatus::Ready
        }
    }

    /// The lobby after the rows of a run of operations were read, from first
    /// to last; nothing where a row names no player.
    pub open spec fn after_rows(
        self,
        ops: Seq<TableRowOperationJson>,
        handle: ConnectionHandle,
    ) -> Option<Lobby>
        decreases ops.len(),
    {
        if ops.len() == 0 {
            Some(self)
        } else {
            match self.after_rows(ops.drop_last(), handle) {
                None => None,
                Some(lobby) => match PlayerId::of_row(ops.last()@.row) {
                    None => None,
                    Some(player) => Some(lobby.joined(player, handle)),
                },
            }
        }
    }

    /// The lobby after the tables of an update were read, from first to
    /// last: only the table `PlayerComponent` counts.
    pub open spec fn after_tables(
        self,
        tables: Seq<TableUpdateJson>,
        handle: ConnectionHandle,
    ) -> Option<Lobby>
        decreases tables.len(),
    {
        if tables.len() == 0 {
            Some(self)
        } else {
            match self.after_tables(tables.drop_last(), handle) {
                None => None,
                Some(lobby) => if tables.last().table_name@ == "PlayerComponent"@ {
                    lobby.after_rows(tables.last().table_row_operations@, handle)
                } else {
                    Some(lobby)
                },
            }
        }
    }

    /// A lobby that nobody has joined.
    pub fn new() -> (r: Lobby)
        ensures
            r == (Lobby { one: None, two: None }),
    {
        Lobby { one: None, two: None }
    }

    pub fn join(&mut self, player: PlayerId, handle: ConnectionHandle)
        ensures
            *final(self) == old(self).joined(player, handle),
    {
        match player {
            PlayerId::One => {
                self.one = Some(handle);
            },
            PlayerId::Two => {
                self.two = Some(handle);
            },
        }
    }

    pub fn status(&self) -> (r: LobbyStatus)
        ensures
            r == self.status_spec(),
    {
        let joined: u8 = (if self.one.is_some() {
            1u8
        } else {
            0u8
        }) + (if self.two.is_some() {
            1u8
        } else {
            0u8
        });
        if joined == 0 {
            LobbyStatus::WaitingForPlayerOne
        } else if joined == 1 {
            LobbyStatus::WaitingForPlayerTwo
        } else {
            LobbyStatus::Ready
        }
    }

    /// Reads the players out of the rows of a run of operations that `handle`
    /// delivered. Nothing is read, and the lobby is as it was, where a row
    /// names no player.
    pub fn read_rows(&mut self, ops: &Vec<TableRowOperationJson>, handle: ConnectionHandle) -> (ok:
        bool)
        ensures
            match old(self).after_rows(ops@, handle) {
                Some(lobby) => ok && *final(self) == lobby,
                None => !ok && *final(self) == *old(self),
            },
    {
        let mut lobby = *self;
        let mut i: usize = 0;
        assert(ops@.take(0) =~= Seq::empty());
        while i < ops.len()
            invariant
                i <= ops.len(),
                self.after_rows(ops@.take(i as int), handle) == Some(lobby),
            decreases ops.len() - i,
        {
            assert(ops@.take(i + 1).drop_last() =~= ops@.take(i as int));
            assert(ops@.take(i + 1).last() == ops[i as int]);
            match PlayerId::from_row(&ops[i].row) {
                Some(player) => {
                    lobby.join(player, handle);
                },
                None => {
                    proof {
                        lemma_rows_prefix(*self, ops@, handle, i + 1);
                    }
                    return false;
                },
            }
            i += 1;
        }
        assert(ops@.take(i as int) =~= ops@);
        *self = lobby;
        true
    }

    /// Reads the players out of a subscription update that `handle`
    /// delivered: only the table `PlayerComponent` counts. Nothing is read,
    /// and the lobby is as it was, where a row of that table names no
    /// player.
    pub fn read_update(&mut self, update: &SubscriptionUpdateJson, handle: ConnectionHandle) -> (ok:
        bool)
        ensures
            match old(self).after_tables(update.table_updates@, handle) {
                Some(lobby) => ok && *final(self) == lobby,
                None => !ok && *final(self) == *old(self),
            },
    {
        let mut lobby = *self;
        let mut t: usize = 0;
        assert(update.table_updates@.take(0) =~= Seq::empty());
        while t < update.table_updates.len()
            invariant
                t <= update.table_updates.len(),
                self.after_tables(update.table_updates@.take(t as int), handle) == Some(lobby),
            decreases update.table_updates.len() - t,
        {
            let ghost tables = update.table_updates@;
            assert(tables.take(t + 1).drop_last() =~= tables.take(t as int));
            assert(tables.take(t + 1).last() == tables[t as int]);
            let table = &update.table_updates[t];
            if str_eq(table.table_name.as_str(), "PlayerComponent") {
                if !lobby.read_rows(&table.table_row_operations, handle) {
                    proof {
                        lemma_tables_prefix(*self, tables, handle, t + 1);
                    }
                    return false;
                }
            }
            t += 1;
        }
        assert(update.table_updates@.take(t as int) =~= update.table_updates@);
        *self = lobby;
        true
    }
}

proof fn lemma_rows_prefix(
    lobby: Lobby,
    ops: Seq<TableRowOperationJson>,
    handle: ConnectionHandle,
    n: int,
)
    requires
        0 <= n <= ops.len(),
        lobby.after_rows(ops.take(n), handle) is None,
    ensures
        lobby.after_rows(ops, handle) is None,
    decreases ops.len() - n,
{
    if n == ops.len() {
        assert(ops.take(n) =~= ops);
    } else {
        assert(ops.take(n + 1).drop_last() =~= ops.take(n));
        lemma_rows_prefix(lobby, ops, handle, n + 1);
    }
}

proof fn lemma_tables_prefix(
    lobby: Lobby,
    tables: Seq<TableUpdateJson>,
    handle: ConnectionHandle,
    n: int,
)
    requires
        0 <= n <= tables.len(),
        lobby.after_tables(tables.take(n), handle) is None,
    ensures
        lobby.after_tables(tables, handle) is None,
    decreases tables.len() - n,
{
    if n == tables.len() {
        assert(tables.take(n) =~= tables);
    } else {
        assert(tables.take(n + 1).drop_last() =~= tables.take(n));
        lemma_tables_prefix(lobby, tables, handle, n + 1);
    }
}

} // verus!
