//! Core of a small arcade loop: a player square dodges and shoots enemy
//! squares that descend from the top of the screen, with a score, a spawn
//! timer, and a game-over/restart cycle.
//!
//! The simulation works in fixed-point integers: positions in sub-units
//! (`POS_SCALE` per world unit), directions in thousandths of a unit vector,
//! speeds in world units per second, and time in milliseconds. The
//! rendering and input platform around it supplies frame deltas, key states
//! and screen bounds as plain values and draws from the entity data.
use vstd::prelude::*;

mod entity;
mod input;
mod laws;
mod spawn;
mod state;

pub use entity::lemma_step_bounded;
pub use entity::GameColor;
pub use entity::Rectangle;
pub use entity::Vec2i;
pub use entity::ENEMY_SIZE;
pub use entity::ENEMY_SPEED;
pub use entity::MAX_DT_MS;
pub use entity::MAX_SIZE;
pub use entity::MAX_SPEED;
pub use entity::PLAYER_SIZE;
pub use entity::PLAYER_SPEED;
pub use entity::POS_LIMIT;
pub use entity::POS_ROOM;
pub use entity::POS_SCALE;
pub use entity::PRE_MOVE_LIMIT;
pub use entity::PROJECTILE_SIZE;
pub use entity::PROJECTILE_SPEED;
pub use entity::VEL_DIAG;
pub use entity::VEL_UNIT;

pub use input::input_velocity;
pub use input::lemma_input_velocity_bounds;
pub use input::lemma_input_velocity_normalized;
pub use input::spec_axis_x;
pub use input::spec_axis_y;
pub use input::spec_input_velocity;
pub use input::spec_mag_sq;
pub use input::InputState;

pub use laws::lemma_boundary_loss;
pub use laws::lemma_one_spawn_per_interval;
pub use laws::lemma_restart_resets;
pub use laws::lemma_run_follows_timer;
pub use laws::lemma_run_spawns_once;
pub use laws::lemma_timer_counts_down;
pub use laws::run_frames;
pub use laws::run_spawn_events;
pub use laws::seq_sum;
pub use laws::spawn_count;
pub use laws::timer_after_run;

pub use spawn::enemy_at;
pub use spawn::setup_enemy;
pub use spawn::setup_player;
pub use spawn::spawn_projectile;
pub use spawn::spec_enemy_at;
pub use spawn::spec_player_start;
pub use spawn::spec_projectile_from;

pub use state::close;
pub use state::lemma_cleanup_entities_ok;
pub use state::lemma_cleanup_idempotent;
pub use state::lemma_cleanup_no_marks;
pub use state::lemma_hits_in_bounds;
pub use state::lemma_pair_count_bounds;
pub use state::lemma_square_bounded;
pub use state::player_touches_enemy;
pub use state::seq_entities_ok;
pub use state::seq_motion_ok;
pub use state::seq_no_marks;
pub use state::seq_pos_ok;
pub use state::seq_pos_pre_move;
pub use state::seq_pos_roomy;
pub use state::spec_any_enemy_out;
pub use state::spec_cleanup;
pub use state::spec_close;
pub use state::spec_enemies_moved;
pub use state::spec_enemies_spawned;
pub use state::spec_frame;
pub use state::spec_frame_marks;
pub use state::spec_hit_by_any;
pub use state::spec_hits_any_enemy;
pub use state::spec_hits_in;
pub use state::spec_mark_enemies;
pub use state::spec_mark_enemy;
pub use state::spec_mark_projectile;
pub use state::spec_mark_projectiles;
pub use state::spec_move_all;
pub use state::spec_pair_count;
pub use state::spec_player_steered;
pub use state::spec_projectiles_fired;
pub use state::spec_projectiles_moved;
pub use state::spec_reset;
pub use state::spec_spawn_due;
pub use state::spec_step_marks;
pub use state::spec_step_playing;
pub use state::spec_timer_next;
pub use state::GameState;
pub use state::StateModel;
pub use state::MAX_ENTITIES;
pub use state::SCORE_LIMIT;
pub use state::SPAWN_INTERVAL_MS;

verus! {

} // verus!
