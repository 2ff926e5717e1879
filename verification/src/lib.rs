use vstd::prelude::*;

pub mod text;
pub mod field;
pub mod scaffold;
pub mod typegen;
pub mod translations;
pub mod builders;
pub mod strmap;
pub mod context;
pub mod field_builder;
pub mod enrich;
pub mod forms;
pub mod versions;
pub mod crypto;
pub mod lifecycle;
pub mod events;
pub mod cli;
pub mod collection;
pub mod lua_tables;
pub mod round_trip;
pub mod status;
pub mod selected;
pub mod interpolation;
