//! Players: input actions and their bindings, movement decisions, sprite
//! animation frames, facing, spawn slots and the chosen player's marker.
use vstd::prelude::*;
use crate::arena::{Position, GROUND_MIDDLE, WINDOW_WIDTH};

verus! {

/// Pixels per second when walking.
pub const WALK_SPEED: u32 = 150;

/// Pixels per second when running.
pub const RUN_SPEED: u32 = 300;

/// Players in a team.
pub const PLAYERS_PER_TEAM: usize = 3;

/// Teams on the pitch.
pub const NUM_TEAMS: usize = 1;

/// Pixels between neighbouring spawn slots.
pub const SLOT_SPACING: i32 = 48;

/// Height of the chosen player's marker above the player, in pixels.
pub const MARKER_OFFSET: i32 = 30;

/// What a player can ask for.
#[derive(Clone, Copy, Debug, PartialEq, Eq, Structural, Hash)]
pub enum PlayerAction {
    Idle,
    Up,
    Down,
    Left,
    Right,
    Walk,
    Run,
    Kick,
}

/// A direction of movement on the grid: each coordinate is -1, 0 or 1.
#[derive(Clone, Copy, Debug, PartialEq, Eq, Structural)]
pub struct Heading {
    pub x: i32,
    pub y: i32,
}

/// The unit heading of a movement action; other actions have none.
pub open spec fn action_heading(a: PlayerAction) -> Option<Heading> {
    match a {
        PlayerAction::Up => Some(Heading { x: 0, y: 1 }),
        PlayerAction::Down => Some(Heading { x: 0, y: -1i32 }),
        PlayerAction::Left => Some(Heading { x: -1i32, y: 0 }),
        PlayerAction::Right => Some(Heading { x: 1, y: 0 }),
        _ => None,
    }
}

impl PlayerAction {
    /// The unit heading of a movement action; other actions have none.
    pub fn direction(self) -> (r: Option<Heading>)
        ensures
            r == action_heading(self),
    {
        match self {
            PlayerAction::Up => Some(Heading { x: 0, y: 1 }),
            PlayerAction::Down => Some(Heading { x: 0, y: -1 }),
            PlayerAction::Left => Some(Heading { x: -1, y: 0 }),
            PlayerAction::Right => Some(Heading { x: 1, y: 0 }),
            _ => None,
        }
    }
}

/// The four movement actions.
pub open spec fn movement_actions() -> Seq<PlayerAction> {
    seq![PlayerAction::Up, PlayerAction::Down, PlayerAction::Left, PlayerAction::Right]
}

/// The four movement actions.
pub fn directions() -> (r: Vec<PlayerAction>)
    ensures
        r@ == movement_actions(),
{
    let r = vec![PlayerAction::Up, PlayerAction::Down, PlayerAction::Left, PlayerAction::Right];
    proof {
        assert(r@ =~= movement_actions());
    }
    r
}

/// Whether `pressed` holds `a`.
pub fn is_pressed(pressed: &Vec<PlayerAction>, a: PlayerAction) -> (r: bool)
    ensures
        r == pressed@.contains(a),
{
    let mut i: usize = 0;
    while i < pressed.len()
        invariant
            i <= pressed.len(),
            forall|j: int| 0 <= j < i ==> pressed@[j] != a,
        decreases pressed.len() - i,
    {
        if pressed[i] == a {
            return true;
        }
        i = i + 1;
    }
    false
}

/// 1 if `b`, else 0.
pub open spec fn count(b: bool) -> int {
    if b {
        1
    } else {
        0
    }
}

/// The sum of the headings of the movement actions pressed.
pub open spec fn net_heading(pressed: Seq<PlayerAction>) -> Heading {
    Heading {
        x: (count(pressed.contains(PlayerAction::Right)) - count(
            pressed.contains(PlayerAction::Left),
        )) as i32,
        y: (count(pressed.contains(PlayerAction::Up)) - count(pressed.contains(PlayerAction::Down))) as i32,
    }
}

/// A player asks to move.
#[derive(Clone, Copy, Debug, PartialEq, Eq, Structural)]
pub struct PlayerMoves {
    /// Never zero.
    pub direction: Heading,
    pub running: bool,
}

/// What a player's pressed actions ask for: a move along the net heading of
/// the movement actions, running if run is pressed; nothing when the
/// headings cancel out or none is pressed.
pub fn player_moves(pressed: &Vec<PlayerAction>) -> (r: Option<PlayerMoves>)
    ensures
        r == if net_heading(pressed@) == (Heading { x: 0, y: 0 }) {
            None
        } else {
            Some(
                PlayerMoves {
                    direction: net_heading(pressed@),
                    running: pressed@.contains(PlayerAction::Run),
                },
            )
        },
{
    let dirs = directions();
    let mut x: i32 = 0;
    let mut y: i32 = 0;
    let mut i: usize = 0;
    while i < 4
        invariant
            i <= 4,
            dirs@ == movement_actions(),
            x == (if i > 3 { count(pressed@.contains(PlayerAction::Right)) } else { 0 }) - (if i
                > 2 {
                count(pressed@.contains(PlayerAction::Left))
            } else {
                0
            }),
            y == (if i > 0 { count(pressed@.contains(PlayerAction::Up)) } else { 0 }) - (if i
                > 1 {
                count(pressed@.contains(PlayerAction::Down))
            } else {
                0
            }),
        decreases 4 - i,
    {
        let a = dirs[i];
        if is_pressed(pressed, a) {
            if let Some(h) = a.direction() {
                x = x + h.x;
                y = y + h.y;
            }
        }
        i = i + 1;
    }
    if x == 0 && y == 0 {
        None
    } else {
        Some(PlayerMoves { direction: Heading { x, y }, running: is_pressed(pressed, PlayerAction::Run) })
    }
}

/// No player presses a movement action.
pub open spec fn all_still(players: Seq<Vec<PlayerAction>>) -> bool {
    forall|i: int, j: int|
        0 <= i < players.len() && 0 <= j < 4 ==> !(#[trigger] players[i]@).contains(
            #[trigger] movement_actions()[j],
        )
}

/// Whether the players go idle: exactly when none presses a movement action.
pub fn player_idles(players: &Vec<Vec<PlayerAction>>) -> (r: bool)
    ensures
        r == all_still(players@),
{
    let dirs = directions();
    let mut i: usize = 0;
    while i < players.len()
        invariant
            i <= players.len(),
            dirs@ == movement_actions(),
            forall|p: int, j: int|
                0 <= p < i && 0 <= j < 4 ==> !(#[trigger] players@[p]@).contains(
                    #[trigger] movement_actions()[j],
                ),
        decreases players.len() - i,
    {
        let mut k: usize = 0;
        while k < 4
            invariant
                i < players.len(),
                k <= 4,
                dirs@ == movement_actions(),
                forall|j: int| 0 <= j < k ==> !players@[i as int]@.contains(#[trigger] movement_actions()[j]),
            decreases 4 - k,
        {
            if is_pressed(&players[i], dirs[k]) {
                return false;
            }
            k = k + 1;
        }
        i = i + 1;
    }
    true
}

/// How a player is moving.
#[derive(Clone, Copy, Debug, PartialEq, Eq, Structural, Hash, Default)]
pub enum PlayerState {
    #[default]
    Idle,
    Walking,
    Running,
}

/// The state and speed that a move calls for.
#[derive(Clone, Copy, Debug, PartialEq, Eq, Structural)]
pub struct Movement {
    pub state: PlayerState,
    pub direction: Heading,
    /// Pixels per second.
    pub speed: u32,
}

/// The movement that a move calls for: running at the run speed, or
/// walking at the walk speed.
pub open spec fn movement_of(m: PlayerMoves) -> Movement {
    if m.running {
        Movement { state: PlayerState::Running, direction: m.direction, speed: RUN_SPEED }
    } else {
        Movement { state: PlayerState::Walking, direction: m.direction, speed: WALK_SPEED }
    }
}

/// The movement for a frame's moves: the last move decides; with no move
/// there is none.
pub fn movement(moves: &Vec<PlayerMoves>) -> (r: Option<Movement>)
    ensures
        r == if moves@.len() == 0 {
            None
        } else {
            Some(movement_of(moves@.last()))
        },
{
    if moves.len() == 0 {
        return None;
    }
    let m = moves[moves.len() - 1];
    if m.running {
        Some(Movement { state: PlayerState::Running, direction: m.direction, speed: RUN_SPEED })
    } else {
        Some(Movement { state: PlayerState::Walking, direction: m.direction, speed: WALK_SPEED })
    }
}

/// A run of frames of the sprite sheet, both ends included.
#[derive(Clone, Copy, Debug, PartialEq, Eq, Structural)]
pub struct AnimationIndices {
    pub first: usize,
    pub last: usize,
}

impl AnimationIndices {
    /// The frame after `index`: the next one of the run, back to the first
    /// after the last, and the first from outside the run.
    pub fn next(self, index: usize) -> (r: usize)
        ensures
            r == if self.first <= index < self.last {
                index + 1
            } else {
                self.first as int
            },
    {
        if self.first <= index && index < self.last {
            index + 1
        } else {
            self.first
        }
    }
}

/// The frames of each state's animation: idle 0 to 3, walking 4 to 10,
/// running 18 to 23.
pub open spec fn frames_of(state: PlayerState) -> AnimationIndices {
    match state {
        PlayerState::Idle => AnimationIndices { first: 0, last: 3 },
        PlayerState::Walking => AnimationIndices { first: 4, last: 10 },
        PlayerState::Running => AnimationIndices { first: 18, last: 23 },
    }
}

/// The frames of each state's animation.
pub fn animation_frames(state: PlayerState) -> (r: AnimationIndices)
    ensures
        r == frames_of(state),
{
    match state {
        PlayerState::Idle => AnimationIndices { first: 0, last: 3 },
        PlayerState::Walking => AnimationIndices { first: 4, last: 10 },
        PlayerState::Running => AnimationIndices { first: 18, last: 23 },
    }
}

/// The sprite frame to show in `state` when `index` is shown now: `index`
/// if it belongs to the state's animation, else the animation's first frame.
pub fn animation_index(state: PlayerState, index: usize) -> (r: usize)
    ensures
        r == if frames_of(state).first <= index <= frames_of(state).last {
            index
        } else {
            frames_of(state).first
        },
{
    let frames = animation_frames(state);
    if index < frames.first || index > frames.last {
        frames.first
    } else {
        index
    }
}

/// Which way a player's sprite faces.
#[derive(Clone, Copy, Debug, PartialEq, Eq, Structural)]
pub enum Direction {
    Left,
    Right,
}

/// The facing that a horizontal movement of sign `dx` calls for: right when
/// positive, left when negative, unchanged when zero.
pub fn update_direction(dx: i32) -> (r: Option<Direction>)
    ensures
        r == if dx > 0 {
            Some(Direction::Right)
        } else if dx < 0 {
            Some(Direction::Left)
        } else {
            None
        },
{
    if dx > 0 {
        Some(Direction::Right)
    } else if dx < 0 {
        Some(Direction::Left)
    } else {
        None
    }
}

impl Direction {
    /// The sprite is drawn mirrored exactly when facing left.
    pub fn flip_x(self) -> (r: bool)
        ensures
            r == (self == Direction::Left),
    {
        match self {
            Direction::Left => true,
            Direction::Right => false,
        }
    }
}

/// Whether a player is the one that the user steers.
#[derive(Clone, Copy, Debug, PartialEq, Eq, Structural)]
pub enum PlayerType {
    Live,
    Drone,
}

/// Where a player starts and who steers it.
#[derive(Clone, Copy, Debug, PartialEq, Eq, Structural)]
pub struct PlayerSlot {
    pub position: Position,
    pub player_type: PlayerType,
}

/// The slot of player `player` of team `team`: teams side by side, players
/// of a team stacked upward from the starting point a quarter of the window
/// left of its centre; the first of each team is live.
pub open spec fn slot_of(team: int, player: int) -> PlayerSlot {
    PlayerSlot {
        position: Position { x: (-200 + 48 * team) as i32, y: (25 + 48 * player) as i32, z: 5 },
        player_type: if player == 0 {
            PlayerType::Live
        } else {
            PlayerType::Drone
        },
    }
}

/// The spawn slots, team by team.
pub fn spawn_players() -> (r: Vec<PlayerSlot>)
    ensures
        r@.len() == NUM_TEAMS * PLAYERS_PER_TEAM,
        forall|i: int|
            0 <= i < r@.len() ==> #[trigger] r@[i] == slot_of(
                i / PLAYERS_PER_TEAM as int,
                i % PLAYERS_PER_TEAM as int,
            ),
{
    let mut r: Vec<PlayerSlot> = Vec::new();
    let mut team: usize = 0;
    while team < NUM_TEAMS
        invariant
            team <= NUM_TEAMS,
            r@.len() == team * PLAYERS_PER_TEAM,
            forall|i: int|
                0 <= i < r@.len() ==> #[trigger] r@[i] == slot_of(
                    i / PLAYERS_PER_TEAM as int,
                    i % PLAYERS_PER_TEAM as int,
                ),
        decreases NUM_TEAMS - team,
    {
        let mut player: usize = 0;
        while player < PLAYERS_PER_TEAM
            invariant
                team < NUM_TEAMS,
                player <= PLAYERS_PER_TEAM,
                r@.len() == team * PLAYERS_PER_TEAM + player,
                forall|i: int|
                    0 <= i < r@.len() ==> #[trigger] r@[i] == slot_of(
                        i / PLAYERS_PER_TEAM as int,
                        i % PLAYERS_PER_TEAM as int,
                    ),
            decreases PLAYERS_PER_TEAM - player,
        {
            let player_type = if player == 0 {
                PlayerType::Live
            } else {
                PlayerType::Drone
            };
            let x = -WINDOW_WIDTH / 4 + SLOT_SPACING * (team as i32);
            let y = GROUND_MIDDLE + SLOT_SPACING * (player as i32);
            r.push(PlayerSlot { position: Position { x, y, z: 5 }, player_type });
            proof {
                let i = (team * PLAYERS_PER_TEAM + player) as int;
                assert(i / PLAYERS_PER_TEAM as int == team);
                assert(i % PLAYERS_PER_TEAM as int == player);
            }
            player = player + 1;
        }
        team = team + 1;
    }
    r
}

/// The number of live players before the first drone.
pub open spec fn live_run(players: Seq<PlayerSlot>) -> int
    decreases players.len(),
{
    if players.len() == 0 || players[0].player_type == PlayerType::Drone {
        0
    } else {
        1 + live_run(players.drop_first())
    }
}

/// Where the marker above a player stands.
pub open spec fn marker_above(p: Position) -> Position {
    Position { x: p.x, y: (p.y + MARKER_OFFSET) as i32, z: p.z }
}

/// There is room above every player for a marker.
pub open spec fn markers_fit(players: Seq<PlayerSlot>) -> bool {
    forall|i: int| 0 <= i < players.len() ==> #[trigger] players[i].position.y <= i32::MAX - MARKER_OFFSET
}

/// The players before the live run's end are live, and the one at its end,
/// if any, is a drone.
proof fn lemma_live_run(players: Seq<PlayerSlot>)
    ensures
        0 <= live_run(players) <= players.len(),
        forall|j: int|
            0 <= j < live_run(players) ==> #[trigger] players[j].player_type == PlayerType::Live,
        live_run(players) < players.len() ==> players[live_run(players)].player_type
            == PlayerType::Drone,
    decreases players.len(),
{
    if players.len() > 0 && players[0].player_type != PlayerType::Drone {
        let rest = players.drop_first();
        lemma_live_run(rest);
        assert forall|j: int| 0 <= j < live_run(players) implies #[trigger] players[j].player_type
            == PlayerType::Live by {
            if j > 0 {
                assert(players[j] == rest[j - 1]);
            }
        }
        if live_run(players) < players.len() {
            assert(players[live_run(players)] == rest[live_run(rest)]);
        }
    }
}

/// The markers to spawn: one above each live player, in order, up to the
/// first drone.
pub fn spawn_chosen_player_marker(players: &Vec<PlayerSlot>) -> (r: Vec<Position>)
    requires
        markers_fit(players@),
    ensures
        r@.len() == live_run(players@),
        forall|i: int| 0 <= i < r@.len() ==> #[trigger] r@[i] == marker_above(players@[i].position),
{
    let mut r: Vec<Position> = Vec::new();
    let mut i: usize = 0;
    while i < players.len()
        invariant
            i <= players.len(),
            markers_fit(players@),
            r@.len() == i,
            forall|j: int| 0 <= j < i ==> #[trigger] players@[j].player_type == PlayerType::Live,
            forall|j: int| 0 <= j < r@.len() ==> #[trigger] r@[j] == marker_above(players@[j].position),
        decreases players.len() - i,
    {
        let p = players[i];
        if p.player_type != PlayerType::Live {
            proof {
                lemma_live_run(players@);
            }
            return r;
        }
        r.push(Position { x: p.position.x, y: p.position.y + MARKER_OFFSET, z: p.position.z });
        i = i + 1;
    }
    proof {
        lemma_live_run(players@);
    }
    r
}

/// Where the single marker goes: above the last live player before the
/// first drone; nowhere when the first player is a drone.
pub fn update_chosen_player_marker_position(players: &Vec<PlayerSlot>) -> (r: Option<Position>)
    requires
        markers_fit(players@),
    ensures
        r == if live_run(players@) == 0 {
            None
        } else {
            Some(marker_above(players@[live_run(players@) - 1].position))
        },
{
    let markers = spawn_chosen_player_marker(players);
    if markers.len() == 0 {
        None
    } else {
        Some(markers[markers.len() - 1])
    }
}

/// A key or gamepad button that an action can be bound to.
#[derive(Clone, Copy, Debug, PartialEq, Eq, Structural, Hash)]
pub enum InputButton {
    ArrowUp,
    ArrowDown,
    ArrowLeft,
    ArrowRight,
    KeyW,
    KeyA,
    KeyS,
    KeyD,
    ShiftLeft,
    ShiftRight,
    Space,
    DPadUp,
    DPadDown,
    DPadLeft,
    DPadRight,
    GamepadEast,
    GamepadSouth,
}

/// The default bindings: arrows, WASD and the D-pad move; either shift key
/// or the east button runs; space or the south button kicks.
pub open spec fn default_bindings() -> Seq<(PlayerAction, InputButton)> {
    seq![
        (PlayerAction::Up, InputButton::ArrowUp),
        (PlayerAction::Up, InputButton::KeyW),
        (PlayerAction::Up, InputButton::DPadUp),
        (PlayerAction::Down, InputButton::ArrowDown),
        (PlayerAction::Down, InputButton::KeyS),
        (PlayerAction::Down, InputButton::DPadDown),
        (PlayerAction::Left, InputButton::ArrowLeft),
        (PlayerAction::Left, InputButton::KeyA),
        (PlayerAction::Left, InputButton::DPadLeft),
        (PlayerAction::Right, InputButton::ArrowRight),
        (PlayerAction::Right, InputButton::KeyD),
        (PlayerAction::Right, InputButton::DPadRight),
        (PlayerAction::Run, InputButton::ShiftLeft),
        (PlayerAction::Run, InputButton::ShiftRight),
        (PlayerAction::Run, InputButton::GamepadEast),
        (PlayerAction::Kick, InputButton::Space),
        (PlayerAction::Kick, InputButton::GamepadSouth),
    ]
}

/// The default bindings of actions to keys and buttons, one pair each.
pub fn default_input_map() -> (r: Vec<(PlayerAction, InputButton)>)
    ensures
        r@ == default_bindings(),
{
    let moves = vec![
        (PlayerAction::Up, InputButton::ArrowUp, InputButton::KeyW, InputButton::DPadUp),
        (PlayerAction::Down, InputButton::ArrowDown, InputButton::KeyS, InputButton::DPadDown),
        (PlayerAction::Left, InputButton::ArrowLeft, InputButton::KeyA, InputButton::DPadLeft),
        (PlayerAction::Right, InputButton::ArrowRight, InputButton::KeyD, InputButton::DPadRight),
    ];
    let mut r: Vec<(PlayerAction, InputButton)> = Vec::new();
    let mut i: usize = 0;
    while i < moves.len()
        invariant
            i <= moves@.len() == 4,
            moves@ == seq![
                (PlayerAction::Up, InputButton::ArrowUp, InputButton::KeyW, InputButton::DPadUp),
                (PlayerAction::Down, InputButton::ArrowDown, InputButton::KeyS, InputButton::DPadDown),
                (PlayerAction::Left, InputButton::ArrowLeft, InputButton::KeyA, InputButton::DPadLeft),
                (PlayerAction::Right, InputButton::ArrowRight, InputButton::KeyD, InputButton::DPadRight),
            ],
            r@ == default_bindings().take(3 * i),
        decreases moves.len() - i,
    {
        let (action, key, letter, pad) = moves[i];
        r.push((action, key));
        r.push((action, letter));
        r.push((action, pad));
        proof {
            assert(r@ =~= default_bindings().take(3 * i + 3));
        }
        i = i + 1;
    }
    r.push((PlayerAction::Run, InputButton::ShiftLeft));
    r.push((PlayerAction::Run, InputButton::ShiftRight));
    r.push((PlayerAction::Run, InputButton::GamepadEast));
    r.push((PlayerAction::Kick, InputButton::Space));
    r.push((PlayerAction::Kick, InputButton::GamepadSouth));
    proof {
        assert(r@ =~= default_bindings());
    }
    r
}

} // verus!
