//! Session state: one explicit struct owned by the simulation loop, created
//! at match start, mutated every tick, and replaced wholesale on restart.

use vstd::prelude::*;

use crate::components::EntityKind;
use crate::components::EntityRec;
use crate::kinematics::ENEMY_LEFT_WALL_X;
use crate::kinematics::ENEMY_RIGHT_WALL_X;
use crate::kinematics::PLAYER_MAX_X;
use crate::kinematics::PLAYER_MIN_X;
use crate::store::EntityId;
use crate::store::Store;

verus! {

/// Fixed-point multiplier scale: 1000 stands for a factor of one.
pub const MULT_ONE: u64 = 1000;

/// Cap on the enemy speed multiplier; at this point an enemy already crosses
/// the whole playfield many times per tick, and letting the multiplier grow
/// further would overflow the speed computation.
pub const SPEED_MULT_LIMIT: u64 = 50_000_000;

/// Cap on the projectile-probability multiplier; the per-tick fire chance is
/// certain well below this point.
pub const PROB_MULT_LIMIT: u64 = 1_000_000_000;

/// Number of enemies in a freshly spawned wave.
pub const WAVE_ENEMY_COUNT: u16 = 30;

/// Held-key state of the player's input, tracked start/end so simultaneous
/// opposing keys resolve deterministically.
#[derive(Clone, Copy, PartialEq, Eq, Structural, Debug)]
pub struct PlayerInputHandler {
    pub player_shoot: bool,
    pub move_player_left: bool,
    pub move_player_right: bool,
}

/// The entries of the main menu.
#[derive(Clone, Copy, PartialEq, Eq, Structural, Debug)]
pub enum MenuItem {
    HostGame,
    JoinGame,
    PlaySolo,
}

/// Which screen the session currently shows.
#[derive(Clone, Copy, PartialEq, Eq, Structural, Debug)]
pub enum Screen {
    Main,
    Hosting,
    Joining,
    Game,
}

/// Main-menu state: the highlighted entry and the active screen.
#[derive(Clone, Copy, PartialEq, Eq, Structural, Debug)]
pub struct MainMenu {
    pub active_menu_item: MenuItem,
    pub screen: Screen,
}

/// A peer's socket address as plain values.
#[derive(Clone, Copy, PartialEq, Eq, Structural, Debug)]
pub struct PeerAddr {
    pub ip0: u8,
    pub ip1: u8,
    pub ip2: u8,
    pub ip3: u8,
    pub port: u16,
}

/// Networking intent of the session.  The connection task itself is owned
/// outside the library; `listener_active` mirrors whether one is running, and
/// the loop around the library keeps it in step.
#[derive(Clone, Copy, PartialEq, Eq, Structural, Debug)]
pub struct GameNetworking {
    pub stay_online: bool,
    pub host: bool,
    pub listener_active: bool,
    pub peer: Option<PeerAddr>,
}

impl GameNetworking {
    /// Marks the session as wanting to stay online (hosting a game).
    pub fn host(&mut self)
        ensures
            *final(self) == (GameNetworking { stay_online: true, ..*old(self) }),
    {
        self.stay_online = true;
    }

    /// Drops all networking intent; the loop around the library aborts any
    /// running connection task in response.
    pub fn reset(&mut self)
        ensures
            *final(self) == (GameNetworking {
                stay_online: false,
                host: false,
                listener_active: false,
                peer: None,
            }),
    {
        self.stay_online = false;
        self.host = false;
        self.listener_active = false;
        self.peer = None;
    }
}

/// How many live entities of kind `k` the slot sequence holds.
pub open spec fn count_kind(s: Seq<Option<EntityRec>>, k: EntityKind) -> nat
    decreases s.len(),
{
    if s.len() == 0 {
        0
    } else {
        count_kind(s.drop_last(), k) + (if s.last() matches Some(r) && r.kind == k {
            1nat
        } else {
            0nat
        })
    }
}

/// The contribution of one slot to a kind count.
pub open spec fn kind_weight(slot: Option<EntityRec>, k: EntityKind) -> nat {
    if slot matches Some(r) && r.kind == k {
        1nat
    } else {
        0nat
    }
}

/// Appending a slot adds exactly its own contribution to a kind count.
pub proof fn lemma_count_kind_push(s: Seq<Option<EntityRec>>, v: Option<EntityRec>, k: EntityKind)
    ensures
        count_kind(s.push(v), k) == count_kind(s, k) + kind_weight(v, k),
{
    assert(s.push(v).drop_last() =~= s);
}

/// Replacing a slot shifts a kind count by the difference of the old and new
/// contributions.
pub proof fn lemma_count_kind_update(
    s: Seq<Option<EntityRec>>,
    i: int,
    v: Option<EntityRec>,
    k: EntityKind,
)
    requires
        0 <= i < s.len(),
    ensures
        count_kind(s.update(i, v), k) + kind_weight(s[i], k) == count_kind(s, k) + kind_weight(
            v,
            k,
        ),
    decreases s.len(),
{
    if i == s.len() - 1 {
        assert(s.update(i, v).drop_last() =~= s.drop_last());
    } else {
        assert(s.update(i, v).drop_last() =~= s.drop_last().update(i, v));
        lemma_count_kind_update(s.drop_last(), i, v, k);
    }
}

/// Two slot sequences whose slots contribute alike to a kind count have the
/// same count of that kind.
pub proof fn lemma_count_kind_congruence(
    a: Seq<Option<EntityRec>>,
    b: Seq<Option<EntityRec>>,
    k: EntityKind,
)
    requires
        a.len() == b.len(),
        forall|i: int| 0 <= i < a.len() ==> kind_weight(#[trigger] a[i], k) == kind_weight(b[i], k),
    ensures
        count_kind(a, k) == count_kind(b, k),
    decreases a.len(),
{
    if a.len() > 0 {
        assert(forall|i: int|
            0 <= i < a.drop_last().len() ==> kind_weight(#[trigger] a.drop_last()[i], k)
                == kind_weight(b.drop_last()[i], k));
        lemma_count_kind_congruence(a.drop_last(), b.drop_last(), k);
    }
}

/// In a slot sequence holding exactly one entity of a kind, any two live
/// slots of that kind are the same slot.
pub proof fn lemma_count_kind_unique(s: Seq<Option<EntityRec>>, k: EntityKind, i: int, j: int)
    requires
        count_kind(s, k) == 1,
        0 <= i < s.len(),
        0 <= j < s.len(),
        s[i] matches Some(r) && r.kind == k,
        s[j] matches Some(r) && r.kind == k,
    ensures
        i == j,
    decreases s.len(),
{
    if i != j {
        let hi = if i > j { i } else { j };
        let lo = if i > j { j } else { i };
        if hi == s.len() - 1 {
            lemma_count_kind_lower_bound(s.drop_last(), k, lo);
        } else if s.last() matches Some(r) && r.kind == k {
            lemma_count_kind_lower_bound(s.drop_last(), k, lo);
        } else {
            lemma_count_kind_unique(s.drop_last(), k, i, j);
        }
    }
}

/// A live slot of a kind witnesses a positive count of that kind.
pub proof fn lemma_count_kind_lower_bound(s: Seq<Option<EntityRec>>, k: EntityKind, i: int)
    requires
        0 <= i < s.len(),
        s[i] matches Some(r) && r.kind == k,
    ensures
        count_kind(s, k) >= 1,
    decreases s.len(),
{
    if i < s.len() - 1 {
        lemma_count_kind_lower_bound(s.drop_last(), k, i);
    }
}

/// A positive kind count names a live slot of that kind.
pub proof fn lemma_count_kind_nonzero(s: Seq<Option<EntityRec>>, k: EntityKind) -> (i: int)
    requires
        count_kind(s, k) > 0,
    ensures
        0 <= i < s.len(),
        s[i] matches Some(r) && r.kind == k,
    decreases s.len(),
{
    if s.last() matches Some(r) && r.kind == k {
        s.len() - 1
    } else {
        let i = lemma_count_kind_nonzero(s.drop_last(), k);
        i
    }
}

/// Per-kind placement bounds that every live entity keeps: the player and the
/// enemies stay inside the side walls (which also keeps the fire and spawn
/// offsets from overflowing a cell coordinate).
pub open spec fn rec_bounds(r: EntityRec) -> bool {
    &&& r.kind is Player ==> PLAYER_MIN_X <= r.position.x <= PLAYER_MAX_X
    &&& r.kind is Enemy ==> ENEMY_LEFT_WALL_X <= r.position.x <= ENEMY_RIGHT_WALL_X
}

/// Every live slot holds a well-formed, well-placed bundle.
pub open spec fn slots_wf(s: Seq<Option<EntityRec>>) -> bool {
    forall|i: int|
        0 <= i < s.len() ==> (#[trigger] s[i] matches Some(r) ==> r.wf() && rec_bounds(r))
}

/// Single in-flight player projectile: in any well-formed session the store
/// holds exactly as many player projectiles as the guard flag says — one
/// while a shot is in flight, none otherwise, and never two.  Every public
/// operation of the library preserves well-formedness, so the guard matches
/// the store's actual content at all times.
pub proof fn lemma_single_projectile_guard(gs: GameState)
    requires
        gs.wf(),
    ensures
        count_kind(gs.world@, EntityKind::PlayerProjectile) == (if gs.player_projectile_exists {
            1nat
        } else {
            0nat
        }),
        count_kind(gs.world@, EntityKind::PlayerProjectile) <= 1,
{
}

/// The whole session state of one match.
pub struct GameState {
    pub world: Store,
    pub player_lives: u16,
    pub player_entity: EntityId,
    pub player_projectile_exists: bool,
    pub enemy_direction: crate::components::Direction,
    pub score_updated: bool,
    pub score: i32,
    pub high_score: i32,
    pub enemy_speed_multiplier: u64,
    pub enemy_proj_prob_multiplier: u64,
    pub enemy_amount: u16,
    pub game_over: bool,
    pub game_over_notifier: bool,
    pub paused: bool,
    pub pause_notifier: bool,
    pub restart_notifier: bool,
    pub player_input_handler: PlayerInputHandler,
    pub main_menu: MainMenu,
    pub networking: GameNetworking,
    pub request_clear_render: bool,
}

impl GameState {
    /// Session invariant: every stored bundle is well formed and well placed,
    /// the tracked player entity is live, tagged as the player and never part
    /// of the destroy/erase protocol, the single-projectile guard flag agrees
    /// with the store's content, and every scalar stays in its range.
    pub open spec fn wf(self) -> bool {
        let s = self.world@;
        &&& slots_wf(s)
        &&& self.player_entity.0 < s.len()
        &&& (s[self.player_entity.0 as int] matches Some(p)
            && p.kind is Player
            && !p.renderable.destroy
            && !p.renderable.erased)
        &&& count_kind(s, EntityKind::Player) == 1
        &&& count_kind(s, EntityKind::PlayerProjectile) == (if self.player_projectile_exists {
            1nat
        } else {
            0nat
        })
        &&& MULT_ONE <= self.enemy_speed_multiplier <= SPEED_MULT_LIMIT
        &&& MULT_ONE <= self.enemy_proj_prob_multiplier <= PROB_MULT_LIMIT
        &&& 0 <= self.score
        &&& 0 <= self.high_score
        &&& 1 <= self.enemy_amount <= WAVE_ENEMY_COUNT
    }

    /// Leaves whatever screen is active for the main menu, requesting a full
    /// redraw and a world rebuild, and dropping all networking intent.
    pub fn exit_to_menu(&mut self)
        ensures
            *final(self) == (GameState {
                main_menu: MainMenu { screen: Screen::Main, ..old(self).main_menu },
                request_clear_render: true,
                restart_notifier: true,
                networking: GameNetworking {
                    stay_online: false,
                    host: false,
                    listener_active: false,
                    peer: None,
                },
                ..*old(self)
            }),
    {
        self.main_menu.screen = Screen::Main;
        self.request_clear_render = true;
        self.restart_notifier = true;
        self.networking.reset();
    }
}

} // verus!
