pub mod clock;
pub mod fs_model;
pub mod level;
pub mod logger;
pub mod rotate;
pub mod text;
