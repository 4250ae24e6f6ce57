use crate::entity::Rectangle;
use crate::entity::MAX_DT_MS;
use crate::entity::MAX_SIZE;
use crate::entity::POS_LIMIT;
use crate::entity::POS_ROOM;
use crate::entity::POS_SCALE;
use crate::entity::MAX_SPEED;
use crate::entity::VEL_UNIT;
use crate::input::spec_input_velocity;
use crate::input::input_velocity;
use crate::input::InputState;
use crate::spawn::enemy_at;
use crate::spawn::setup_player;
use crate::spawn::spawn_projectile;
use crate::spawn::spec_enemy_at;
use crate::spawn::spec_player_start;
use crate::spawn::spec_projectile_from;
use vstd::prelude::*;

verus! {

/// Milliseconds between enemy spawns; also the spawn timer's starting value.
pub const SPAWN_INTERVAL_MS: i64 = 1000;

/// Largest entity count per collection at a frame boundary; a cap that only
/// keeps the score arithmetic inside `i64` range.
pub const MAX_ENTITIES: usize = 1000000;

/// Largest score at a frame boundary; a cap that only keeps the score
/// arithmetic inside `i64` range.
pub const SCORE_LIMIT: i64 = 1000000000000000000;

/// The collision predicate: `other` is closer to `owner` than `owner`'s
/// edge length, by Euclidean distance between the two top-left corners.
/// Stated over squared distance, which is exact in integers.
pub open spec fn spec_close(owner: Rectangle, other: Rectangle) -> bool {
    let dx = other.pos.x - owner.pos.x;
    let dy = other.pos.y - owner.pos.y;
    dx * dx + dy * dy < (owner.size * POS_SCALE) * (owner.size * POS_SCALE)
}

/// Decide `spec_close` exactly, in 128-bit arithmetic.
pub fn close(owner: &Rectangle, other: &Rectangle) -> (b: bool)
    requires
        owner.pos_roomy(),
        other.pos_roomy(),
        0 < owner.size <= MAX_SIZE,
    ensures
        b == spec_close(*owner, *other),
{
    let dx: i128 = other.pos.x as i128 - owner.pos.x as i128;
    let dy: i128 = other.pos.y as i128 - owner.pos.y as i128;
    proof {
        assert(0 < owner.size * POS_SCALE <= 1000000000) by (nonlinear_arith)
            requires
                0 < owner.size <= 1000,
        ;
    }
    let reach: i128 = owner.size as i128 * POS_SCALE as i128;
    proof {
        lemma_square_bounded(dx as int, 2 * POS_ROOM);
        lemma_square_bounded(dy as int, 2 * POS_ROOM);
        lemma_square_bounded(reach as int, 1000000000);
    }
    dx * dx + dy * dy < reach * reach
}

/// The square of a value bounded by `b` is at most `b * b`.
pub proof fn lemma_square_bounded(v: int, b: int)
    requires
        0 <= b,
        -b <= v <= b,
    ensures
        0 <= v * v <= b * b,
{
    assert(0 <= v * v <= b * b) by (nonlinear_arith)
        requires
            0 <= b,
            -b <= v <= b,
    ;
}

/// The spawn timer's next value: it counts `dt` down and snaps back to the
/// full interval when it runs out, discarding any overshoot.
pub open spec fn spec_timer_next(timer: int, dt: int) -> int {
    if timer - dt <= 0 {
        SPAWN_INTERVAL_MS as int
    } else {
        timer - dt
    }
}

/// Whether a frame of `dt` milliseconds runs the spawn timer out.
pub open spec fn spec_spawn_due(timer: int, dt: int) -> bool {
    timer - dt <= 0
}

/// Every entity of the sequence after one integration step of `dt`.
pub open spec fn spec_move_all(s: Seq<Rectangle>, dt: int) -> Seq<Rectangle> {
    s.map_values(|e: Rectangle| e.spec_moved(dt))
}

/// Some projectile of `ps` is within collision reach of the enemy `e`.
pub open spec fn spec_hit_by_any(e: Rectangle, ps: Seq<Rectangle>) -> bool {
    exists|j: int| 0 <= j < ps.len() && spec_close(e, #[trigger] ps[j])
}

/// Some enemy of `es` holds the projectile `p` within its collision reach.
pub open spec fn spec_hits_any_enemy(p: Rectangle, es: Seq<Rectangle>) -> bool {
    exists|i: int| 0 <= i < es.len() && spec_close(#[trigger] es[i], p)
}

/// The enemy `e` after the collision pass: marked destroyed when some
/// projectile is within reach or when it has crossed the bottom edge `h`.
pub open spec fn spec_mark_enemy(e: Rectangle, ps: Seq<Rectangle>, h: i64) -> Rectangle {
    Rectangle { destroy: e.destroy || spec_hit_by_any(e, ps) || e.pos.y > h, ..e }
}

/// Every enemy after the collision pass.
pub open spec fn spec_mark_enemies(es: Seq<Rectangle>, ps: Seq<Rectangle>, h: i64) -> Seq<
    Rectangle,
> {
    es.map_values(|e: Rectangle| spec_mark_enemy(e, ps, h))
}

/// The projectile `p` after the collision pass: marked destroyed when some
/// enemy holds it within reach.
pub open spec fn spec_mark_projectile(p: Rectangle, es: Seq<Rectangle>) -> Rectangle {
    Rectangle { destroy: p.destroy || spec_hits_any_enemy(p, es), ..p }
}

/// Every projectile after the collision pass.
pub open spec fn spec_mark_projectiles(ps: Seq<Rectangle>, es: Seq<Rectangle>) -> Seq<
    Rectangle,
> {
    ps.map_values(|p: Rectangle| spec_mark_projectile(p, es))
}

/// Some enemy of `es` has crossed the bottom edge `h`: the loss condition.
pub open spec fn spec_any_enemy_out(es: Seq<Rectangle>, h: i64) -> bool {
    exists|i: int| 0 <= i < es.len() && (#[trigger] es[i]).pos.y > h
}

/// How many projectiles of `ps` are within reach of the enemy `e`.
pub open spec fn spec_hits_in(e: Rectangle, ps: Seq<Rectangle>) -> int
    decreases ps.len(),
{
    if ps.len() == 0 {
        0
    } else {
        spec_hits_in(e, ps.drop_last()) + if spec_close(e, ps.last()) {
            1 as int
        } else {
            0 as int
        }
    }
}

/// How many enemy-projectile pairs of `es` and `ps` are within reach: the
/// score gained by one collision pass. A projectile already within reach of
/// an earlier enemy still counts against later ones, so one projectile can
/// score several times in one frame.
pub open spec fn spec_pair_count(es: Seq<Rectangle>, ps: Seq<Rectangle>) -> int
    decreases es.len(),
{
    if es.len() == 0 {
        0
    } else {
        spec_pair_count(es.drop_last(), ps) + spec_hits_in(es.last(), ps)
    }
}

/// The collection after the cleanup pass: entities marked destroyed are
/// removed, the rest keep their relative order.
pub open spec fn spec_cleanup(s: Seq<Rectangle>) -> Seq<Rectangle> {
    s.filter(|e: Rectangle| !e.destroy)
}

/// The whole game at one frame boundary, as mathematical values.
#[verifier::ext_equal]
pub struct StateModel {
    pub player: Rectangle,
    pub score: int,
    pub enemies: Seq<Rectangle>,
    pub projectiles: Seq<Rectangle>,
    pub spawn_timer: int,
    pub game_over: bool,
}

/// The state a game starts in, and returns to on restart: zero score, no
/// enemies or projectiles, a full spawn timer, a fresh player, playing.
pub open spec fn spec_reset(w: i64, h: i64) -> StateModel {
    StateModel {
        player: spec_player_start(w, h),
        score: 0,
        enemies: Seq::empty(),
        projectiles: Seq::empty(),
        spawn_timer: SPAWN_INTERVAL_MS as int,
        game_over: false,
    }
}

/// The enemy collection after the spawn phase: one fresh enemy at `x` is
/// appended when the timer runs out.
pub open spec fn spec_enemies_spawned(s: StateModel, dt: int, x: i64) -> Seq<Rectangle> {
    if spec_spawn_due(s.spawn_timer, dt) {
        s.enemies.push(spec_enemy_at(x))
    } else {
        s.enemies
    }
}

/// The enemy collection after the spawn and movement phases.
pub open spec fn spec_enemies_moved(s: StateModel, dt: int, x: i64) -> Seq<Rectangle> {
    spec_move_all(spec_enemies_spawned(s, dt, x), dt)
}

/// The player after the input phase: steered by the held direction keys.
pub open spec fn spec_player_steered(s: StateModel, input: InputState) -> Rectangle {
    Rectangle { velocity: spec_input_velocity(input), ..s.player }
}

/// The projectile collection after the input phase: one fresh projectile
/// anchored to the player is appended on a fresh fire press.
pub open spec fn spec_projectiles_fired(s: StateModel, input: InputState) -> Seq<Rectangle> {
    if input.fire_pressed {
        s.projectiles.push(spec_projectile_from(spec_player_steered(s, input)))
    } else {
        s.projectiles
    }
}

/// The projectile collection after the input and movement phases.
pub open spec fn spec_projectiles_moved(s: StateModel, dt: int, input: InputState) -> Seq<
    Rectangle,
> {
    spec_move_all(spec_projectiles_fired(s, input), dt)
}

/// One simulation step while playing, up to but not including cleanup, in
/// the frame's phase order: spawn check, input resolution and fire,
/// movement, collision and score, boundary loss. Entities to be removed
/// are still present, marked destroyed, so the platform can give them one
/// last draw pass before cleanup.
pub open spec fn spec_step_marks(
    s: StateModel,
    dt: int,
    input: InputState,
    h: i64,
    x: i64,
) -> StateModel {
    let enemies_moved = spec_enemies_moved(s, dt, x);
    let projs_moved = spec_projectiles_moved(s, dt, input);
    StateModel {
        player: spec_player_steered(s, input).spec_moved(dt),
        score: s.score + spec_pair_count(enemies_moved, projs_moved),
        enemies: spec_mark_enemies(enemies_moved, projs_moved, h),
        projectiles: spec_mark_projectiles(projs_moved, enemies_moved),
        spawn_timer: spec_timer_next(s.spawn_timer, dt),
        game_over: spec_any_enemy_out(enemies_moved, h),
    }
}

/// One whole simulation step while playing: the marking step followed by
/// the cleanup pass.
pub open spec fn spec_step_playing(
    s: StateModel,
    dt: int,
    input: InputState,
    h: i64,
    x: i64,
) -> StateModel {
    let m = spec_step_marks(s, dt, input, h, x);
    StateModel {
        enemies: spec_cleanup(m.enemies),
        projectiles: spec_cleanup(m.projectiles),
        ..m
    }
}

/// One whole frame up to cleanup: in game-over mode the state is untouched
/// unless the restart key is held, which resets it; while playing, the
/// marking step runs, with `x` the horizontal position a spawned enemy
/// lands on.
pub open spec fn spec_frame_marks(
    s: StateModel,
    dt: int,
    input: InputState,
    w: i64,
    h: i64,
    x: i64,
) -> StateModel {
    if s.game_over {
        if input.restart_held {
            spec_reset(w, h)
        } else {
            s
        }
    } else {
        spec_step_marks(s, dt, input, h, x)
    }
}

/// One whole frame: in game-over mode the state is untouched unless the
/// restart key is held, which resets it; while playing, one simulation
/// step runs, with `x` the horizontal position a spawned enemy lands on.
pub open spec fn spec_frame(
    s: StateModel,
    dt: int,
    input: InputState,
    w: i64,
    h: i64,
    x: i64,
) -> StateModel {
    if s.game_over {
        if input.restart_held {
            spec_reset(w, h)
        } else {
            s
        }
    } else {
        spec_step_playing(s, dt, input, h, x)
    }
}

/// Every entity of the sequence has its motion fields in range.
pub open spec fn seq_motion_ok(s: Seq<Rectangle>) -> bool {
    forall|i: int| 0 <= i < s.len() ==> (#[trigger] s[i]).motion_ok()
}

/// No entity of the sequence is marked destroyed.
pub open spec fn seq_no_marks(s: Seq<Rectangle>) -> bool {
    forall|i: int| 0 <= i < s.len() ==> !(#[trigger] s[i]).destroy
}

/// Every entity of the sequence has its motion fields in range and is not
/// marked destroyed.
pub open spec fn seq_entities_ok(s: Seq<Rectangle>) -> bool {
    seq_motion_ok(s) && seq_no_marks(s)
}

/// Every entity of the sequence is within the frame-boundary position cap.
pub open spec fn seq_pos_ok(s: Seq<Rectangle>) -> bool {
    forall|i: int| 0 <= i < s.len() ==> (#[trigger] s[i]).pos_ok()
}

/// Every entity of the sequence is within the pre-move position cap.
pub open spec fn seq_pos_pre_move(s: Seq<Rectangle>) -> bool {
    forall|i: int| 0 <= i < s.len() ==> (#[trigger] s[i]).pos_pre_move()
}

/// Every entity of the sequence is within the mid-frame position cap.
pub open spec fn seq_pos_roomy(s: Seq<Rectangle>) -> bool {
    forall|i: int| 0 <= i < s.len() ==> (#[trigger] s[i]).pos_roomy()
}

/// The whole game state: the one player, the score, the enemy and
/// projectile collections, the spawn countdown and the mode. Enemy and
/// projectile order never affects the simulation's outcome, only the
/// platform's draw order.
pub struct GameState {
    pub player: Rectangle,
    pub score: i64,
    pub enemies: Vec<Rectangle>,
    pub projectiles: Vec<Rectangle>,
    /// Milliseconds until the next enemy spawn.
    pub spawn_timer: i64,
    /// True in game-over mode; false while playing.
    pub game_over: bool,
}

impl View for GameState {
    type V = StateModel;

    open spec fn view(&self) -> StateModel {
        StateModel {
            player: self.player,
            score: self.score as int,
            enemies: self.enemies@,
            projectiles: self.projectiles@,
            spawn_timer: self.spawn_timer as int,
            game_over: self.game_over,
        }
    }
}

impl GameState {
    /// Structural part of well-formedness: motion fields in range, no
    /// entity left marked destroyed, timer within its interval, score
    /// nonnegative. One frame preserves this part outright.
    pub open spec fn entities_ok(self) -> bool {
        &&& self.player.motion_ok()
        &&& !self.player.destroy
        &&& seq_entities_ok(self.enemies@)
        &&& seq_entities_ok(self.projectiles@)
        &&& 1 <= self.spawn_timer <= SPAWN_INTERVAL_MS
        &&& 0 <= self.score
    }

    /// Size part of well-formedness: positions, collection lengths and the
    /// score under their caps. One frame can push these slightly past the
    /// caps; `within_limits` re-checks them at run time.
    pub open spec fn bounds_ok(self) -> bool {
        &&& self.player.pos_ok()
        &&& seq_pos_ok(self.enemies@)
        &&& seq_pos_ok(self.projectiles@)
        &&& self.enemies@.len() <= MAX_ENTITIES
        &&& self.projectiles@.len() <= MAX_ENTITIES
        &&& self.score <= SCORE_LIMIT
    }

    /// A well-formed state at a frame boundary.
    pub open spec fn wf(self) -> bool {
        self.entities_ok() && self.bounds_ok()
    }

    /// A fresh game for a screen of `w` by `h` sub-units.
    pub fn new(screen_width: i64, screen_height: i64) -> (r: GameState)
        requires
            0 <= screen_width <= POS_LIMIT,
            0 <= screen_height <= POS_LIMIT,
        ensures
            r@ == spec_reset(screen_width, screen_height),
            r.wf(),
    {
        let r = GameState {
            player: setup_player(screen_width, screen_height),
            score: 0,
            enemies: Vec::new(),
            projectiles: Vec::new(),
            spawn_timer: SPAWN_INTERVAL_MS,
            game_over: false,
        };
        proof {
            assert(r@ =~= spec_reset(screen_width, screen_height));
        }
        r
    }

    /// Return to the starting state: score zeroed, collections emptied,
    /// timer refilled, a fresh player, playing mode.
    pub fn restart(&mut self, screen_width: i64, screen_height: i64)
        requires
            0 <= screen_width <= POS_LIMIT,
            0 <= screen_height <= POS_LIMIT,
        ensures
            final(self)@ == spec_reset(screen_width, screen_height),
            final(self).wf(),
    {
        self.player = setup_player(screen_width, screen_height);
        self.enemies.clear();
        self.projectiles.clear();
        self.score = 0;
        self.spawn_timer = SPAWN_INTERVAL_MS;
        self.game_over = false;
        proof {
            assert(self@ =~= spec_reset(screen_width, screen_height));
        }
    }

    /// Spawn phase: count the timer down by `dt_ms`; when it runs out,
    /// push one fresh enemy at horizontal position `x` and refill the
    /// timer to the full interval exactly, discarding any overshoot.
    pub fn tick_spawn(&mut self, dt_ms: i64, x: i64)
        requires
            1 <= old(self).spawn_timer <= SPAWN_INTERVAL_MS,
            0 <= dt_ms <= MAX_DT_MS,
            0 <= x <= POS_LIMIT,
            seq_motion_ok(old(self).enemies@),
            seq_pos_ok(old(self).enemies@),
            seq_no_marks(old(self).enemies@),
        ensures
            seq_motion_ok(final(self).enemies@),
            seq_pos_ok(final(self).enemies@),
            seq_no_marks(final(self).enemies@),
            final(self).enemies@ == if spec_spawn_due(old(self).spawn_timer as int, dt_ms as int) {
                old(self).enemies@.push(spec_enemy_at(x))
            } else {
                old(self).enemies@
            },
            final(self).spawn_timer == spec_timer_next(old(self).spawn_timer as int, dt_ms as int),
            1 <= final(self).spawn_timer <= SPAWN_INTERVAL_MS,
            final(self).player == old(self).player,
            final(self).projectiles == old(self).projectiles,
            final(self).score == old(self).score,
            final(self).game_over == old(self).game_over,
    {
        self.spawn_timer = self.spawn_timer - dt_ms;
        if self.spawn_timer <= 0 {
            self.enemies.push(enemy_at(x));
            self.spawn_timer = SPAWN_INTERVAL_MS;
        }
    }

    /// Input phase: steer the player by the held direction keys, and on a
    /// fresh fire press append one projectile anchored to the player's
    /// current position.
    pub fn apply_input(&mut self, input: &InputState)
        requires
            old(self).player.motion_ok(),
            old(self).player.pos_ok(),
            seq_motion_ok(old(self).projectiles@),
            seq_pos_ok(old(self).projectiles@),
            seq_no_marks(old(self).projectiles@),
        ensures
            seq_motion_ok(final(self).projectiles@),
            seq_pos_pre_move(final(self).projectiles@),
            seq_no_marks(final(self).projectiles@),
            final(self).player.pos_ok(),
            final(self).player == (Rectangle {
                velocity: spec_input_velocity(*input),
                ..old(self).player
            }),
            final(self).projectiles@ == if input.fire_pressed {
                old(self).projectiles@.push(spec_projectile_from(final(self).player))
            } else {
                old(self).projectiles@
            },
            final(self).enemies == old(self).enemies,
            final(self).score == old(self).score,
            final(self).spawn_timer == old(self).spawn_timer,
            final(self).game_over == old(self).game_over,
    {
        self.player.velocity = input_velocity(input);
        if input.fire_pressed {
            let p = spawn_projectile(&self.player);
            self.projectiles.push(p);
        }
    }

    /// Movement phase: integrate the player, then every projectile, then
    /// every enemy, each by `velocity * speed * dt_ms`, exactly.
    pub fn move_all(&mut self, dt_ms: i64)
        requires
            old(self).player.motion_ok(),
            old(self).player.pos_pre_move(),
            seq_motion_ok(old(self).projectiles@),
            seq_pos_pre_move(old(self).projectiles@),
            seq_motion_ok(old(self).enemies@),
            seq_pos_pre_move(old(self).enemies@),
            0 <= dt_ms <= MAX_DT_MS,
        ensures
            final(self).player == old(self).player.spec_moved(dt_ms as int),
            final(self).projectiles@ == spec_move_all(old(self).projectiles@, dt_ms as int),
            final(self).enemies@ == spec_move_all(old(self).enemies@, dt_ms as int),
            final(self).player.pos_roomy(),
            final(self).player.motion_ok(),
            seq_pos_roomy(final(self).projectiles@),
            seq_pos_roomy(final(self).enemies@),
            seq_motion_ok(final(self).projectiles@),
            seq_motion_ok(final(self).enemies@),
            forall|k: int|
                0 <= k < old(self).projectiles@.len() ==> (#[trigger] final(self).projectiles@[k]).destroy
                    == old(self).projectiles@[k].destroy,
            forall|k: int|
                0 <= k < old(self).enemies@.len() ==> (#[trigger] final(self).enemies@[k]).destroy
                    == old(self).enemies@[k].destroy,
            final(self).score == old(self).score,
            final(self).spawn_timer == old(self).spawn_timer,
            final(self).game_over == old(self).game_over,
    {
        self.player.move_rectangle(dt_ms);
        move_entities(&mut self.projectiles, dt_ms);
        move_entities(&mut self.enemies, dt_ms);
    }

    /// Collision and boundary phase: for each enemy in order, test every
    /// projectile in order; each pair within reach marks both destroyed and
    /// scores one point, with no early exit, so one projectile can score
    /// against several enemies in the same pass. Each enemy past the bottom
    /// edge is marked destroyed and puts the game into game-over mode. The
    /// player is tested nowhere here: contact between player and enemy has
    /// deliberately no effect.
    pub fn collide(&mut self, screen_height: i64)
        requires
            seq_motion_ok(old(self).enemies@),
            seq_pos_roomy(old(self).enemies@),
            seq_motion_ok(old(self).projectiles@),
            seq_pos_roomy(old(self).projectiles@),
            old(self).enemies@.len() <= MAX_ENTITIES + 1,
            old(self).projectiles@.len() <= MAX_ENTITIES + 1,
            0 <= old(self).score <= SCORE_LIMIT,
        ensures
            final(self).enemies@ == spec_mark_enemies(
                old(self).enemies@,
                old(self).projectiles@,
                screen_height,
            ),
            final(self).projectiles@ == spec_mark_projectiles(
                old(self).projectiles@,
                old(self).enemies@,
            ),
            final(self).score == old(self).score + spec_pair_count(
                old(self).enemies@,
                old(self).projectiles@,
            ),
            final(self).game_over == (old(self).game_over || spec_any_enemy_out(
                old(self).enemies@,
                screen_height,
            )),
            final(self).player == old(self).player,
            final(self).spawn_timer == old(self).spawn_timer,
            seq_motion_ok(final(self).enemies@),
            seq_motion_ok(final(self).projectiles@),
            seq_pos_roomy(final(self).enemies@),
            seq_pos_roomy(final(self).projectiles@),
    {
        let ghost es0 = self.enemies@;
        let ghost ps0 = self.projectiles@;
        let ghost score0 = self.score as int;
        let ghost over0 = self.game_over;
        let ghost player0 = self.player;
        let ghost timer0 = self.spawn_timer;
        let mut i: usize = 0;
        while i < self.enemies.len()
            invariant
                i <= es0.len(),
                self.enemies@.len() == es0.len(),
                self.projectiles@.len() == ps0.len(),
                es0.len() <= MAX_ENTITIES + 1,
                ps0.len() <= MAX_ENTITIES + 1,
                seq_motion_ok(es0),
                seq_pos_roomy(es0),
                seq_motion_ok(ps0),
                seq_pos_roomy(ps0),
                0 <= score0 <= SCORE_LIMIT,
                self.score == score0 + spec_pair_count(es0.take(i as int), ps0),
                forall|k: int|
                    0 <= k < i ==> #[trigger] self.enemies@[k] == spec_mark_enemy(
                        es0[k],
                        ps0,
                        screen_height,
                    ),
                forall|k: int| i <= k < es0.len() ==> #[trigger] self.enemies@[k] == es0[k],
                forall|k: int|
                    0 <= k < ps0.len() ==> #[trigger] self.projectiles@[k]
                        == spec_mark_projectile(ps0[k], es0.take(i as int)),
                self.game_over == (over0 || spec_any_enemy_out(es0.take(i as int), screen_height)),
                self.player == player0,
                self.spawn_timer == timer0,
            decreases es0.len() - i,
        {
            let ghost i_int = i as int;
            let e = self.enemies[i];
            assert(e == es0[i_int]);
            let mut enemy_hit = false;
            let mut j: usize = 0;
            while j < self.projectiles.len()
                invariant
                    0 <= i_int < es0.len(),
                    j <= ps0.len(),
                    self.enemies@.len() == es0.len(),
                    self.projectiles@.len() == ps0.len(),
                    es0.len() <= MAX_ENTITIES + 1,
                    ps0.len() <= MAX_ENTITIES + 1,
                    seq_motion_ok(es0),
                    seq_pos_roomy(es0),
                    seq_motion_ok(ps0),
                    seq_pos_roomy(ps0),
                    0 <= score0 <= SCORE_LIMIT,
                    e == es0[i_int],
                    self.score == score0 + spec_pair_count(es0.take(i_int), ps0) + spec_hits_in(
                        e,
                        ps0.take(j as int),
                    ),
                    enemy_hit == spec_hit_by_any(e, ps0.take(j as int)),
                    forall|k: int|
                        0 <= k < i_int ==> #[trigger] self.enemies@[k] == spec_mark_enemy(
                            es0[k],
                            ps0,
                            screen_height,
                        ),
                    forall|k: int| i_int <= k < es0.len() ==> #[trigger] self.enemies@[k] == es0[k],
                    forall|k: int|
                        0 <= k < j ==> #[trigger] self.projectiles@[k] == spec_mark_projectile(
                            ps0[k],
                            es0.take(i_int + 1),
                        ),
                    forall|k: int|
                        j <= k < ps0.len() ==> #[trigger] self.projectiles@[k]
                            == spec_mark_projectile(ps0[k], es0.take(i_int)),
                    self.game_over == (over0 || spec_any_enemy_out(es0.take(i_int), screen_height)),
                    self.player == player0,
                    self.spawn_timer == timer0,
                decreases ps0.len() - j,
            {
                let ghost j_int = j as int;
                let p = self.projectiles[j];
                assert(p == spec_mark_projectile(ps0[j_int], es0.take(i_int)));
                assert(p.pos == ps0[j_int].pos && p.size == ps0[j_int].size);
                let is_close = close(&e, &p);
                assert(is_close == spec_close(es0[i_int], ps0[j_int]));
                proof {
                    lemma_hits_in_take_step(e, ps0, j_int);
                    lemma_hit_by_any_step(e, ps0, j_int);
                    lemma_hits_any_step(ps0[j_int], es0, i_int);
                    lemma_pair_count_bounds(es0.take(i_int), ps0);
                    lemma_hits_in_bounds(e, ps0.take(j_int));
                    assert(i_int * ps0.len() <= 1000001 * 1000001) by (nonlinear_arith)
                        requires
                            0 <= i_int <= 1000001,
                            0 <= ps0.len() <= 1000001,
                    ;
                }
                if is_close {
                    let marked = Rectangle { destroy: true, ..p };
                    self.projectiles.set(j, marked);
                    enemy_hit = true;
                    self.score = self.score + 1;
                    proof {
                        assert(spec_close(es0.take(i_int + 1)[i_int], ps0[j_int]));
                        assert(self.projectiles@[j_int] == spec_mark_projectile(
                            ps0[j_int],
                            es0.take(i_int + 1),
                        ));
                    }
                } else {
                    proof {
                        assert(self.projectiles@[j_int] == spec_mark_projectile(
                            ps0[j_int],
                            es0.take(i_int + 1),
                        ));
                    }
                }
                j = j + 1;
            }
            proof {
                assert(ps0.take(ps0.len() as int) =~= ps0);
            }
            let out_of_bounds = e.pos.y > screen_height;
            if out_of_bounds {
                self.game_over = true;
            }
            let marked_enemy = Rectangle {
                destroy: e.destroy || enemy_hit || out_of_bounds,
                ..e
            };
            self.enemies.set(i, marked_enemy);
            proof {
                assert(self.enemies@[i_int] == spec_mark_enemy(es0[i_int], ps0, screen_height));
                lemma_pair_count_take_step(es0, ps0, i_int);
                lemma_any_out_step(es0, screen_height, i_int);
            }
            i = i + 1;
        }
        proof {
            assert(es0.take(es0.len() as int) =~= es0);
            assert(self.enemies@ =~= spec_mark_enemies(es0, ps0, screen_height));
            assert(self.projectiles@ =~= spec_mark_projectiles(ps0, es0));
            assert forall|k: int| 0 <= k < self.enemies@.len() implies (#[trigger] self.enemies@[k]).motion_ok()
                && self.enemies@[k].pos_roomy() by {
                assert(self.enemies@[k] == spec_mark_enemy(es0[k], ps0, screen_height));
            }
            assert forall|k: int|
                0 <= k < self.projectiles@.len() implies (#[trigger] self.projectiles@[k]).motion_ok()
                && self.projectiles@[k].pos_roomy() by {
                assert(self.projectiles@[k] == spec_mark_projectile(ps0[k], es0));
            }
        }
    }

    /// Cleanup phase: remove every entity marked destroyed from both
    /// collections, in one stable pass each.
    pub fn cleanup(&mut self)
        ensures
            final(self).enemies@ == spec_cleanup(old(self).enemies@),
            final(self).projectiles@ == spec_cleanup(old(self).projectiles@),
            final(self).player == old(self).player,
            final(self).score == old(self).score,
            final(self).spawn_timer == old(self).spawn_timer,
            final(self).game_over == old(self).game_over,
    {
        retain_live(&mut self.enemies);
        retain_live(&mut self.projectiles);
    }

    /// Whether the state is inside the size caps that the next frame's
    /// arithmetic needs. A frame can carry positions, collection lengths or
    /// the score slightly past the caps; the platform re-checks this before
    /// each frame and stops at the (astronomically remote) machine limit.
    pub fn within_limits(&self) -> (b: bool)
        ensures
            b == self.bounds_ok(),
    {
        let low: i64 = 0 - POS_LIMIT;
        if self.player.pos.x < low || self.player.pos.x > POS_LIMIT || self.player.pos.y < low
            || self.player.pos.y > POS_LIMIT {
            return false;
        }
        if !all_pos_ok(&self.enemies) || !all_pos_ok(&self.projectiles) {
            return false;
        }
        self.enemies.len() <= MAX_ENTITIES && self.projectiles.len() <= MAX_ENTITIES && self.score
            <= SCORE_LIMIT
    }

    /// Whether the state is well formed at a frame boundary: the run-time
    /// counterpart of `wf`, for an unverified caller that must establish a
    /// frame's precondition before handing the state in.
    pub fn well_formed(&self) -> (b: bool)
        ensures
            b == self.wf(),
    {
        let neg_vel: i64 = 0 - VEL_UNIT;
        let motion = self.player.velocity.x >= neg_vel && self.player.velocity.x <= VEL_UNIT
            && self.player.velocity.y >= neg_vel && self.player.velocity.y <= VEL_UNIT
            && self.player.speed >= 0 && self.player.speed <= MAX_SPEED && self.player.size > 0
            && self.player.size <= MAX_SIZE;
        motion && !self.player.destroy && all_entities_ok(&self.enemies) && all_entities_ok(
            &self.projectiles,
        ) && self.spawn_timer >= 1 && self.spawn_timer <= SPAWN_INTERVAL_MS && self.score >= 0
            && self.within_limits()
    }

    /// One frame up to but not including cleanup, with the spawn position
    /// `x` supplied by the caller: in game-over mode, restart when the
    /// restart key is held, else leave the state untouched; while playing,
    /// run the spawn, input, movement, and collision-and-boundary phases.
    /// Entities to be removed stay present, marked destroyed, so they can
    /// be drawn once more before `cleanup`.
    pub fn simulate_with_spawn_x(
        &mut self,
        dt_ms: i64,
        input: &InputState,
        screen_width: i64,
        screen_height: i64,
        x: i64,
    )
        requires
            old(self).wf(),
            0 <= dt_ms <= MAX_DT_MS,
            0 <= screen_width <= POS_LIMIT,
            0 <= screen_height <= POS_LIMIT,
            0 <= x <= POS_LIMIT,
        ensures
            final(self)@ == spec_frame_marks(
                old(self)@,
                dt_ms as int,
                *input,
                screen_width,
                screen_height,
                x,
            ),
            final(self).player.motion_ok(),
            !final(self).player.destroy,
            seq_motion_ok(final(self).enemies@),
            seq_motion_ok(final(self).projectiles@),
            1 <= final(self).spawn_timer <= SPAWN_INTERVAL_MS,
            0 <= final(self).score,
    {
        if self.game_over {
            if input.restart_held {
                self.restart(screen_width, screen_height);
            }
            return ;
        }
        let ghost s0 = self@;
        self.tick_spawn(dt_ms, x);
        proof {
            assert(self.enemies@ == spec_enemies_spawned(s0, dt_ms as int, x));
        }
        self.apply_input(input);
        proof {
            crate::input::lemma_input_velocity_bounds(*input);
            assert(self.player == spec_player_steered(s0, *input));
            assert(self.projectiles@ == spec_projectiles_fired(s0, *input));
        }
        self.move_all(dt_ms);
        proof {
            assert(self.enemies@ == spec_enemies_moved(s0, dt_ms as int, x));
            assert(self.projectiles@ == spec_projectiles_moved(s0, dt_ms as int, *input));
        }
        let ghost enemies_moved = self.enemies@;
        let ghost projs_moved = self.projectiles@;
        self.collide(screen_height);
        proof {
            lemma_pair_count_bounds(enemies_moved, projs_moved);
            assert(self@ =~= spec_step_marks(
                s0,
                dt_ms as int,
                *input,
                screen_height,
                x,
            ));
        }
    }

    /// One frame up to but not including cleanup: as
    /// `simulate_with_spawn_x`, with the spawn position drawn uniformly
    /// over the screen width when a spawn is due.
    pub fn simulate(
        &mut self,
        dt_ms: i64,
        input: &InputState,
        screen_width: i64,
        screen_height: i64,
    )
        requires
            old(self).wf(),
            0 <= dt_ms <= MAX_DT_MS,
            1 <= screen_width <= POS_LIMIT,
            0 <= screen_height <= POS_LIMIT,
        ensures
            exists|x: i64|
                0 <= x < screen_width && final(self)@ == spec_frame_marks(
                    old(self)@,
                    dt_ms as int,
                    *input,
                    screen_width,
                    screen_height,
                    x,
                ),
            final(self).player.motion_ok(),
            !final(self).player.destroy,
            seq_motion_ok(final(self).enemies@),
            seq_motion_ok(final(self).projectiles@),
            1 <= final(self).spawn_timer <= SPAWN_INTERVAL_MS,
            0 <= final(self).score,
    {
        let x: i64 = if !self.game_over && self.spawn_timer - dt_ms <= 0 {
            crate::spawn::random_in_range(screen_width)
        } else {
            0
        };
        self.simulate_with_spawn_x(dt_ms, input, screen_width, screen_height, x);
    }

    /// One whole frame with the spawn position `x` supplied by the caller:
    /// the marking step of `simulate_with_spawn_x` followed, while playing,
    /// by the cleanup pass.
    pub fn frame_with_spawn_x(
        &mut self,
        dt_ms: i64,
        input: &InputState,
        screen_width: i64,
        screen_height: i64,
        x: i64,
    )
        requires
            old(self).wf(),
            0 <= dt_ms <= MAX_DT_MS,
            0 <= screen_width <= POS_LIMIT,
            0 <= screen_height <= POS_LIMIT,
            0 <= x <= POS_LIMIT,
        ensures
            final(self)@ == spec_frame(
                old(self)@,
                dt_ms as int,
                *input,
                screen_width,
                screen_height,
                x,
            ),
            final(self).entities_ok(),
    {
        let was_over = self.game_over;
        self.simulate_with_spawn_x(dt_ms, input, screen_width, screen_height, x);
        if !was_over {
            let ghost marked = self@;
            self.cleanup();
            proof {
                lemma_cleanup_entities_ok(marked.enemies);
                lemma_cleanup_entities_ok(marked.projectiles);
                assert(self@ =~= spec_frame(
                    old(self)@,
                    dt_ms as int,
                    *input,
                    screen_width,
                    screen_height,
                    x,
                ));
            }
        } else {
            proof {
                assert(self@ =~= spec_frame(
                    old(self)@,
                    dt_ms as int,
                    *input,
                    screen_width,
                    screen_height,
                    x,
                ));
            }
        }
    }

    /// One whole frame: as `frame_with_spawn_x`, with the spawn position
    /// drawn uniformly over the screen width when a spawn is due.
    pub fn frame(&mut self, dt_ms: i64, input: &InputState, screen_width: i64, screen_height: i64)
        requires
            old(self).wf(),
            0 <= dt_ms <= MAX_DT_MS,
            1 <= screen_width <= POS_LIMIT,
            0 <= screen_height <= POS_LIMIT,
        ensures
            exists|x: i64|
                0 <= x < screen_width && final(self)@ == spec_frame(
                    old(self)@,
                    dt_ms as int,
                    *input,
                    screen_width,
                    screen_height,
                    x,
                ),
            final(self).entities_ok(),
    {
        let x: i64 = if !self.game_over && self.spawn_timer - dt_ms <= 0 {
            crate::spawn::random_in_range(screen_width)
        } else {
            0
        };
        self.frame_with_spawn_x(dt_ms, input, screen_width, screen_height, x);
    }
}

/// An enemy can strike at most every projectile once.
pub proof fn lemma_hits_in_bounds(e: Rectangle, ps: Seq<Rectangle>)
    ensures
        0 <= spec_hits_in(e, ps) <= ps.len(),
    decreases ps.len(),
{
    if ps.len() > 0 {
        lemma_hits_in_bounds(e, ps.drop_last());
    }
}

/// A collision pass scores at most once per enemy-projectile pair.
pub proof fn lemma_pair_count_bounds(es: Seq<Rectangle>, ps: Seq<Rectangle>)
    ensures
        0 <= spec_pair_count(es, ps) <= es.len() * ps.len(),
    decreases es.len(),
{
    if es.len() > 0 {
        lemma_pair_count_bounds(es.drop_last(), ps);
        lemma_hits_in_bounds(es.last(), ps);
        assert((es.len() - 1) * ps.len() + ps.len() == es.len() * ps.len()) by (nonlinear_arith);
    }
}

/// Extending a projectile prefix by one extends the enemy's hit count by
/// whether that projectile is within reach.
proof fn lemma_hits_in_take_step(e: Rectangle, ps: Seq<Rectangle>, j: int)
    requires
        0 <= j < ps.len(),
    ensures
        spec_hits_in(e, ps.take(j + 1)) == spec_hits_in(e, ps.take(j)) + if spec_close(
            e,
            ps[j],
        ) {
            1 as int
        } else {
            0 as int
        },
{
    let t = ps.take(j + 1);
    assert(t.drop_last() =~= ps.take(j));
    assert(t.last() == ps[j]);
}

/// Extending an enemy prefix by one extends the pair count by that enemy's
/// own hit count.
proof fn lemma_pair_count_take_step(es: Seq<Rectangle>, ps: Seq<Rectangle>, i: int)
    requires
        0 <= i < es.len(),
    ensures
        spec_pair_count(es.take(i + 1), ps) == spec_pair_count(es.take(i), ps) + spec_hits_in(
            es[i],
            ps,
        ),
{
    let t = es.take(i + 1);
    assert(t.drop_last() =~= es.take(i));
    assert(t.last() == es[i]);
}

/// Extending a projectile prefix by one weakens or keeps the enemy's
/// hit-by-any predicate accordingly.
proof fn lemma_hit_by_any_step(e: Rectangle, ps: Seq<Rectangle>, j: int)
    requires
        0 <= j < ps.len(),
    ensures
        spec_hit_by_any(e, ps.take(j + 1)) == (spec_hit_by_any(e, ps.take(j)) || spec_close(
            e,
            ps[j],
        )),
{
    assert(ps.take(j + 1)[j] == ps[j]);
    if spec_hit_by_any(e, ps.take(j + 1)) {
        let k = choose|k: int| 0 <= k < j + 1 && spec_close(e, #[trigger] ps.take(j + 1)[k]);
        if k < j {
            assert(spec_close(e, ps.take(j)[k]));
        }
    }
    if spec_hit_by_any(e, ps.take(j)) {
        let k = choose|k: int| 0 <= k < j && spec_close(e, #[trigger] ps.take(j)[k]);
        assert(spec_close(e, ps.take(j + 1)[k]));
    }
}

/// Extending an enemy prefix by one weakens or keeps the projectile's
/// hits-any-enemy predicate accordingly.
proof fn lemma_hits_any_step(p: Rectangle, es: Seq<Rectangle>, i: int)
    requires
        0 <= i < es.len(),
    ensures
        spec_hits_any_enemy(p, es.take(i + 1)) == (spec_hits_any_enemy(p, es.take(i))
            || spec_close(es[i], p)),
{
    assert(es.take(i + 1)[i] == es[i]);
    if spec_hits_any_enemy(p, es.take(i + 1)) {
        let k = choose|k: int| 0 <= k < i + 1 && spec_close(#[trigger] es.take(i + 1)[k], p);
        if k < i {
            assert(spec_close(es.take(i)[k], p));
        }
    }
    if spec_hits_any_enemy(p, es.take(i)) {
        let k = choose|k: int| 0 <= k < i && spec_close(#[trigger] es.take(i)[k], p);
        assert(spec_close(es.take(i + 1)[k], p));
    }
}

/// Extending an enemy prefix by one weakens or keeps the boundary-loss
/// predicate accordingly.
proof fn lemma_any_out_step(es: Seq<Rectangle>, h: i64, i: int)
    requires
        0 <= i < es.len(),
    ensures
        spec_any_enemy_out(es.take(i + 1), h) == (spec_any_enemy_out(es.take(i), h) || es[i].pos.y
            > h),
{
    assert(es.take(i + 1)[i] == es[i]);
    if spec_any_enemy_out(es.take(i + 1), h) {
        let k = choose|k: int|
            0 <= k < i + 1 && (#[trigger] es.take(i + 1)[k]).pos.y > h;
        if k < i {
            assert(es.take(i)[k].pos.y > h);
        }
    }
    if spec_any_enemy_out(es.take(i), h) {
        let k = choose|k: int| 0 <= k < i && (#[trigger] es.take(i)[k]).pos.y > h;
        assert(es.take(i + 1)[k].pos.y > h);
    }
}

/// A cleanup pass removes nothing from a collection with no destroy marks.
pub proof fn lemma_cleanup_no_marks(s: Seq<Rectangle>)
    requires
        seq_no_marks(s),
    ensures
        spec_cleanup(s) == s,
    decreases s.len(),
{
    if s.len() > 0 {
        lemma_cleanup_no_marks(s.drop_last());
        s.drop_last().lemma_filter_push(s.last(), |e: Rectangle| !e.destroy);
        assert(s.drop_last().push(s.last()) =~= s);
    } else {
        assert(s =~= Seq::<Rectangle>::empty());
    }
}

/// After a cleanup pass, no entity is marked destroyed, and motion fields
/// stay in range.
pub proof fn lemma_cleanup_entities_ok(s: Seq<Rectangle>)
    requires
        seq_motion_ok(s),
    ensures
        seq_entities_ok(spec_cleanup(s)),
    decreases s.len(),
{
    if s.len() > 0 {
        lemma_cleanup_entities_ok(s.drop_last());
        s.drop_last().lemma_filter_push(s.last(), |e: Rectangle| !e.destroy);
        assert(s.drop_last().push(s.last()) =~= s);
        assert(spec_cleanup(s.drop_last().push(s.last())) == if !s.last().destroy {
            spec_cleanup(s.drop_last()).push(s.last())
        } else {
            spec_cleanup(s.drop_last())
        });
    } else {
        assert(s =~= Seq::<Rectangle>::empty());
    }
}

/// Law: cleanup is idempotent — a second cleanup pass, with no destroy
/// marks set in between, leaves both collections exactly as they were.
pub proof fn lemma_cleanup_idempotent(s: Seq<Rectangle>)
    ensures
        spec_cleanup(spec_cleanup(s)) == spec_cleanup(s),
{
    assert forall|i: int| 0 <= i < spec_cleanup(s).len() implies !(#[trigger] spec_cleanup(
        s,
    )[i]).destroy by {
        s.lemma_filter_pred(|e: Rectangle| !e.destroy, i);
    }
    lemma_cleanup_no_marks(spec_cleanup(s));
}

/// Integrate every entity of the collection by `dt_ms` milliseconds.
fn move_entities(entities: &mut Vec<Rectangle>, dt_ms: i64)
    requires
        seq_motion_ok(old(entities)@),
        seq_pos_pre_move(old(entities)@),
        0 <= dt_ms <= MAX_DT_MS,
    ensures
        final(entities)@ == spec_move_all(old(entities)@, dt_ms as int),
        seq_pos_roomy(final(entities)@),
        seq_motion_ok(final(entities)@),
        forall|k: int|
            0 <= k < old(entities)@.len() ==> (#[trigger] final(entities)@[k]).destroy
                == old(entities)@[k].destroy,
{
    let ghost start = entities@;
    let mut i: usize = 0;
    while i < entities.len()
        invariant
            i <= start.len(),
            entities@.len() == start.len(),
            seq_motion_ok(start),
            seq_pos_pre_move(start),
            0 <= dt_ms <= MAX_DT_MS,
            forall|k: int|
                0 <= k < i ==> #[trigger] entities@[k] == start[k].spec_moved(dt_ms as int)
                    && entities@[k].pos_roomy(),
            forall|k: int| i <= k < start.len() ==> #[trigger] entities@[k] == start[k],
        decreases start.len() - i,
    {
        let mut e = entities[i];
        e.move_rectangle(dt_ms);
        entities.set(i, e);
        i = i + 1;
    }
    proof {
        assert(entities@ =~= spec_move_all(start, dt_ms as int));
    }
}

/// Whether every entity of the collection has its motion fields in range
/// and no destroy mark set.
fn all_entities_ok(entities: &Vec<Rectangle>) -> (b: bool)
    ensures
        b == (seq_motion_ok(entities@) && seq_no_marks(entities@)),
{
    let neg_unit: i64 = 0 - VEL_UNIT;
    let mut i: usize = 0;
    while i < entities.len()
        invariant
            i <= entities@.len(),
            neg_unit == -VEL_UNIT,
            forall|k: int|
                0 <= k < i ==> (#[trigger] entities@[k]).motion_ok() && !entities@[k].destroy,
        decreases entities@.len() - i,
    {
        let e = entities[i];
        if e.velocity.x < neg_unit || e.velocity.x > VEL_UNIT || e.velocity.y < neg_unit
            || e.velocity.y > VEL_UNIT || e.speed < 0 || e.speed > MAX_SPEED || e.size <= 0
            || e.size > MAX_SIZE || e.destroy {
            return false;
        }
        i = i + 1;
    }
    true
}

/// Whether every entity of the collection is inside the frame-boundary
/// position cap.
fn all_pos_ok(entities: &Vec<Rectangle>) -> (b: bool)
    ensures
        b == seq_pos_ok(entities@),
{
    let low: i64 = 0 - POS_LIMIT;
    let mut i: usize = 0;
    while i < entities.len()
        invariant
            i <= entities@.len(),
            low == -POS_LIMIT,
            forall|k: int| 0 <= k < i ==> (#[trigger] entities@[k]).pos_ok(),
        decreases entities@.len() - i,
    {
        let e = entities[i];
        if e.pos.x < low || e.pos.x > POS_LIMIT || e.pos.y < low || e.pos.y > POS_LIMIT {
            return false;
        }
        i = i + 1;
    }
    true
}

/// Whether some enemy of the collection holds `player` within the player's
/// own collision reach. The simulation computes this nowhere: contact
/// between player and enemy deliberately has no effect on the game, and
/// this query only lets a caller observe the condition.
pub fn player_touches_enemy(player: &Rectangle, enemies: &Vec<Rectangle>) -> (b: bool)
    requires
        player.pos_roomy(),
        0 < player.size <= MAX_SIZE,
        seq_pos_roomy(enemies@),
    ensures
        b == spec_hit_by_any(*player, enemies@),
{
    let mut hit = false;
    let mut i: usize = 0;
    while i < enemies.len()
        invariant
            i <= enemies@.len(),
            player.pos_roomy(),
            0 < player.size <= MAX_SIZE,
            seq_pos_roomy(enemies@),
            hit == spec_hit_by_any(*player, enemies@.take(i as int)),
        decreases enemies@.len() - i,
    {
        let e = enemies[i];
        proof {
            lemma_hit_by_any_step(*player, enemies@, i as int);
        }
        if close(player, &e) {
            hit = true;
        }
        i = i + 1;
    }
    proof {
        assert(enemies@.take(enemies@.len() as int) =~= enemies@);
    }
    hit
}

/// Remove every entity marked destroyed, keeping the remaining entities'
/// relative order.
fn retain_live(entities: &mut Vec<Rectangle>)
    ensures
        final(entities)@ == spec_cleanup(old(entities)@),
{
    broadcast use vstd::seq_lib::group_filter_ensures;
    broadcast use Seq::lemma_filter_push;

    let ghost start = entities@;
    let mut kept: Vec<Rectangle> = Vec::new();
    let mut i: usize = 0;
    while i < entities.len()
        invariant
            i <= start.len(),
            entities@ == start,
            kept@ == spec_cleanup(start.take(i as int)),
        decreases start.len() - i,
    {
        let e = entities[i];
        proof {
            let prefix = start.take(i as int);
            assert(start.take(i as int + 1) =~= prefix.push(start[i as int]));
            prefix.lemma_filter_push(start[i as int], |e: Rectangle| !e.destroy);
        }
        if !e.destroy {
            kept.push(e);
        }
        i = i + 1;
    }
    proof {
        assert(start.take(start.len() as int) =~= start);
    }
    *entities = kept;
}

} // verus!
