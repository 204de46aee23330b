pub mod ring_buff;
pub mod u16_cell;
pub mod word;
