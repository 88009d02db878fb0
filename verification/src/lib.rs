pub mod codec;
pub mod pipeline;
pub mod surface;
pub mod tracker;
