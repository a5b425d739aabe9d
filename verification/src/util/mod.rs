pub mod color;
pub mod icons;
