//! Building blocks of a tabletop role-playing game maker: dice rolls and
//! opposed outcomes, narrative texts and roll tables, game entities and the
//! SQL statements that store them.

pub mod text;
pub mod roll_dice;
pub mod narratives;
pub mod entities;
pub mod store;
pub mod audio;
