pub mod breakpoints;
pub mod bus_logger;
pub mod cpu;
pub mod device;
pub mod machine;
pub mod memory;
pub mod navigation;
pub mod memory_view;
pub mod bus_scope;
pub mod display;
