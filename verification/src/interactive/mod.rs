pub mod copy;
