pub mod buffered;
pub mod driver;
pub mod lut;
pub mod rotated;
pub mod target;
pub mod wire;
