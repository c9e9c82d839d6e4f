pub mod direct;
pub mod first_reaction;
pub mod util;

pub use direct::direct;
pub use first_reaction::first_reaction_step;
pub use util::UniformSource;
