mod sum;

pub mod handlers;
pub mod repositories;
pub mod router;

pub use sum::add;
pub use sum::sub;
