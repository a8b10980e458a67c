pub mod natural;
pub mod stack;
