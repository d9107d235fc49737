pub mod big_endian;
pub mod messages;
pub mod meta;
pub mod process;
