pub mod conflict_resolution;
pub mod coordinator;
pub mod decay;
pub mod desktop;
pub mod synthesis;
pub mod vector_clock;
