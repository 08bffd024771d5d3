//! A terminal aquarium: the integer-valued core of the simulation and its
//! double-buffered, diff-based renderer, verified with Verus.
//!
//! - `color`: the terminal colour palette used by every drawing.
//! - `renderer`: the cell grid, viewport clipping and the frame diff that
//!   turns a drawn frame into terminal commands.
//! - `aquarium`: the command line, the tank's layout in both modes, where
//!   clicks land, the initial fish grid, the food-flake pool and the
//!   harpoon banner.
//! - `entities`: the shapes and colours of fish, bubbles, seaweed and
//!   visitors.
//! - `rng`: the random-number generator the tank draws from.
//! - `scene`: the sea floor, the kill banner, and cat mode's living room
//!   (wall, carpet, picture frame, couch and cat).
//! - `hud`: the clock, mode hint and fish counter on the top row.

pub mod color;
pub mod renderer;
pub mod aquarium;
pub mod entities;
pub mod rng;
pub mod scene;
pub mod hud;
