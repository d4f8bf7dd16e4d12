pub mod psf;
pub mod framebuffer;
pub mod console;
