pub mod clock;
pub mod disk;
pub mod fonts;
pub mod lookup;
pub mod operations;
pub mod paths;
pub mod project;
pub mod reading;
pub mod render;
pub mod replacement;
pub mod sources;
pub mod update;
pub mod world;
