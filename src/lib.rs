//! Turn-based territorial strategy engine: players gather resources, build
//! bases, train units and send them to battlefield fields; at the end every
//! field, and then the whole match, goes to the strongest contender.

pub mod actions;
pub mod board;
pub mod buildings;
pub mod errors;
pub mod game;
pub mod limits;
pub mod player;
pub mod properties;
pub mod resources;
pub mod troops;
pub mod value_types;
