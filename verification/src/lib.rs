//! Verified core of terminal_hell: the tile-grid pathfinder, tag
//! interning, log ring, frame profiler, wire/share-code formats and the
//! small content enums the game is built from.
pub mod fb;
pub mod pathfind;
pub mod perf_overlay;
pub mod text;
pub mod tag;
pub mod interaction;
pub mod log_buf;
pub mod perk;
pub mod primitive;
pub mod projectile;
pub mod draw;
pub mod enemy;
pub mod gore;
pub mod traversal;
pub mod weapon;
pub mod waves;
pub mod menu;
pub mod gamepad;
pub mod gamepad_linux_ff;
pub mod net;
pub mod mouse;
pub mod brand;
pub mod clock;
pub mod hud;
pub mod input;
pub mod install_server;
pub mod label_map;
pub mod telemetry;
pub mod rng;
pub mod share;
pub mod spatial;
pub mod sprite;
pub mod sprite_art;
pub mod substance;
pub mod stun;
pub mod upnp;
pub mod vote;
