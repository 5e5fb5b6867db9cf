pub mod builder;
pub mod dates;
pub mod directive;
pub mod machine;
pub mod paths;
pub mod render;
pub mod statements;
pub mod text;
