pub mod bus_line;
pub mod clock;
pub mod cpu_bus;
pub mod identifiable;
pub mod ring_buff;
pub mod scheduler;
