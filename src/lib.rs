//! Static import analysis for frontend source trees: resolves the import
//! specifiers found in scripts and stylesheets and works out which project
//! files nothing imports.

pub mod common;
pub mod paths;
pub mod processors;
pub mod resolver;
pub mod text;
pub mod usage;
