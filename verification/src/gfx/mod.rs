pub mod attributes;
pub mod blending;
pub mod color;
pub mod color_attributes;
pub mod frame_buffer;
pub mod video_mode;
