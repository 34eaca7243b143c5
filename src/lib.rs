use vstd::prelude::*;

pub mod category;
pub mod date;
pub mod error;
pub mod front_matter;
pub mod jekyll;
pub mod markdown;
pub mod media;
pub mod reader;
