use crate::input::InputState;
use crate::spawn::spec_player_start;
use crate::state::spec_any_enemy_out;
use crate::state::spec_enemies_moved;
use crate::state::spec_frame;
use crate::state::spec_reset;
use crate::state::spec_spawn_due;
use crate::state::spec_step_marks;
use crate::state::spec_step_playing;
use crate::state::spec_timer_next;
use crate::state::StateModel;
use crate::state::SPAWN_INTERVAL_MS;
use vstd::prelude::*;

verus! {

/// Elapsed milliseconds of a run of frames with the given deltas.
pub open spec fn seq_sum(deltas: Seq<int>) -> int
    decreases deltas.len(),
{
    if deltas.len() == 0 {
        0
    } else {
        seq_sum(deltas.drop_last()) + deltas.last()
    }
}

/// The spawn timer after a run of frames with the given deltas, starting
/// from `t0` milliseconds.
pub open spec fn timer_after_run(t0: int, deltas: Seq<int>) -> int
    decreases deltas.len(),
{
    if deltas.len() == 0 {
        t0
    } else {
        spec_timer_next(timer_after_run(t0, deltas.drop_last()), deltas.last())
    }
}

/// How many enemy spawns fall due across a run of frames with the given
/// deltas, starting from `t0` milliseconds on the timer.
pub open spec fn spawn_count(t0: int, deltas: Seq<int>) -> int
    decreases deltas.len(),
{
    if deltas.len() == 0 {
        0
    } else {
        spawn_count(t0, deltas.drop_last()) + if spec_spawn_due(
            timer_after_run(t0, deltas.drop_last()),
            deltas.last(),
        ) {
            1 as int
        } else {
            0 as int
        }
    }
}

/// While the elapsed time stays short of one spawn interval, nothing
/// spawns and the timer holds exactly the remainder of the interval.
pub proof fn lemma_timer_counts_down(deltas: Seq<int>)
    requires
        forall|i: int| 0 <= i < deltas.len() ==> #[trigger] deltas[i] >= 0,
        seq_sum(deltas) < SPAWN_INTERVAL_MS,
    ensures
        spawn_count(SPAWN_INTERVAL_MS as int, deltas) == 0,
        timer_after_run(SPAWN_INTERVAL_MS as int, deltas) == SPAWN_INTERVAL_MS - seq_sum(deltas),
    decreases deltas.len(),
{
    if deltas.len() > 0 {
        let prefix = deltas.drop_last();
        assert(deltas.last() >= 0);
        assert forall|i: int| 0 <= i < prefix.len() implies #[trigger] prefix[i] >= 0 by {
            assert(prefix[i] == deltas[i]);
        }
        lemma_timer_counts_down(prefix);
    }
}

/// Law: across a run of frames whose deltas are nonnegative and sum to
/// exactly one spawn interval, with every proper prefix summing to less,
/// exactly one enemy spawn falls due — and the timer snaps back to the
/// full interval, discarding nothing and carrying nothing over.
pub proof fn lemma_one_spawn_per_interval(deltas: Seq<int>)
    requires
        forall|i: int| 0 <= i < deltas.len() ==> #[trigger] deltas[i] >= 0,
        seq_sum(deltas) == SPAWN_INTERVAL_MS,
        forall|k: int|
            0 <= k < deltas.len() ==> seq_sum(#[trigger] deltas.take(k)) < SPAWN_INTERVAL_MS,
    ensures
        spawn_count(SPAWN_INTERVAL_MS as int, deltas) == 1,
        timer_after_run(SPAWN_INTERVAL_MS as int, deltas) == SPAWN_INTERVAL_MS,
{
    assert(deltas.len() > 0);
    let prefix = deltas.drop_last();
    assert(prefix =~= deltas.take(deltas.len() - 1));
    assert(seq_sum(prefix) < SPAWN_INTERVAL_MS);
    assert forall|i: int| 0 <= i < prefix.len() implies #[trigger] prefix[i] >= 0 by {
        assert(prefix[i] == deltas[i]);
    }
    lemma_timer_counts_down(prefix);
    assert(spec_spawn_due(timer_after_run(SPAWN_INTERVAL_MS as int, prefix), deltas.last()));
}

/// The state after a run of frames, one per delta, all with the same key
/// snapshot and spawn position.
pub open spec fn run_frames(
    s: StateModel,
    deltas: Seq<int>,
    input: InputState,
    w: i64,
    h: i64,
    x: i64,
) -> StateModel
    decreases deltas.len(),
{
    if deltas.len() == 0 {
        s
    } else {
        spec_frame(
            run_frames(s, deltas.drop_last(), input, w, h, x),
            deltas.last(),
            input,
            w,
            h,
            x,
        )
    }
}

/// How many frames of the run append a fresh enemy.
pub open spec fn run_spawn_events(
    s: StateModel,
    deltas: Seq<int>,
    input: InputState,
    w: i64,
    h: i64,
    x: i64,
) -> int
    decreases deltas.len(),
{
    if deltas.len() == 0 {
        0
    } else {
        let pre = run_frames(s, deltas.drop_last(), input, w, h, x);
        run_spawn_events(s, deltas.drop_last(), input, w, h, x) + if !pre.game_over
            && spec_spawn_due(pre.spawn_timer, deltas.last()) {
            1 as int
        } else {
            0 as int
        }
    }
}

/// Across a run of frames none of which starts in game-over mode, the
/// spawn timer follows the countdown fold, and the frames that append an
/// enemy are exactly those the fold counts due.
pub proof fn lemma_run_follows_timer(
    s: StateModel,
    deltas: Seq<int>,
    input: InputState,
    w: i64,
    h: i64,
    x: i64,
)
    requires
        forall|k: int|
            0 <= k < deltas.len() ==> !(#[trigger] run_frames(
                s,
                deltas.take(k),
                input,
                w,
                h,
                x,
            )).game_over,
    ensures
        run_frames(s, deltas, input, w, h, x).spawn_timer == timer_after_run(
            s.spawn_timer,
            deltas,
        ),
        run_spawn_events(s, deltas, input, w, h, x) == spawn_count(s.spawn_timer, deltas),
    decreases deltas.len(),
{
    if deltas.len() > 0 {
        let prefix = deltas.drop_last();
        assert forall|k: int|
            0 <= k < prefix.len() implies !(#[trigger] run_frames(
            s,
            prefix.take(k),
            input,
            w,
            h,
            x,
        )).game_over by {
            assert(prefix.take(k) =~= deltas.take(k));
        }
        lemma_run_follows_timer(s, prefix, input, w, h, x);
        assert(deltas.take(deltas.len() - 1) =~= prefix);
        assert(!run_frames(s, prefix, input, w, h, x).game_over);
    }
}

/// Law: starting from a full spawn timer, a run of frames that never
/// leaves playing mode, whose deltas are nonnegative and sum to exactly
/// one spawn interval with every proper prefix summing to less, appends an
/// enemy in exactly one of its frames.
pub proof fn lemma_run_spawns_once(
    s: StateModel,
    deltas: Seq<int>,
    input: InputState,
    w: i64,
    h: i64,
    x: i64,
)
    requires
        s.spawn_timer == SPAWN_INTERVAL_MS,
        forall|k: int|
            0 <= k < deltas.len() ==> !(#[trigger] run_frames(
                s,
                deltas.take(k),
                input,
                w,
                h,
                x,
            )).game_over,
        forall|i: int| 0 <= i < deltas.len() ==> #[trigger] deltas[i] >= 0,
        seq_sum(deltas) == SPAWN_INTERVAL_MS,
        forall|k: int|
            0 <= k < deltas.len() ==> seq_sum(#[trigger] deltas.take(k)) < SPAWN_INTERVAL_MS,
    ensures
        run_spawn_events(s, deltas, input, w, h, x) == 1,
        run_frames(s, deltas, input, w, h, x).spawn_timer == SPAWN_INTERVAL_MS,
{
    lemma_run_follows_timer(s, deltas, input, w, h, x);
    lemma_one_spawn_per_interval(deltas);
}

/// Law: when any enemy stands below the bottom edge after the movement
/// phase, that frame marks the enemy destroyed and ends in game-over mode.
pub proof fn lemma_boundary_loss(
    s: StateModel,
    dt: int,
    input: InputState,
    h: i64,
    x: i64,
    i: int,
)
    requires
        !s.game_over,
        0 <= i < spec_enemies_moved(s, dt, x).len(),
        spec_enemies_moved(s, dt, x)[i].pos.y > h,
    ensures
        spec_step_marks(s, dt, input, h, x).enemies[i].destroy,
        spec_step_marks(s, dt, input, h, x).game_over,
        spec_step_playing(s, dt, input, h, x).game_over,
{
    assert(spec_any_enemy_out(spec_enemies_moved(s, dt, x), h));
}

/// Law: from game-over mode, a held restart key yields exactly the
/// starting state — zero score, both collections empty, a full spawn
/// timer, the player at the canonical start position, playing mode.
pub proof fn lemma_restart_resets(
    s: StateModel,
    dt: int,
    input: InputState,
    w: i64,
    h: i64,
    x: i64,
)
    requires
        s.game_over,
        input.restart_held,
    ensures
        spec_frame(s, dt, input, w, h, x) == spec_reset(w, h),
        spec_frame(s, dt, input, w, h, x).score == 0,
        spec_frame(s, dt, input, w, h, x).enemies.len() == 0,
        spec_frame(s, dt, input, w, h, x).projectiles.len() == 0,
        spec_frame(s, dt, input, w, h, x).player == spec_player_start(w, h),
        !spec_frame(s, dt, input, w, h, x).game_over,
{
}

} // verus!
