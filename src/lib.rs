//! Host runtime of a small fantasy console: the cartridge drawing kit, the
//! wire formats shared with a cartridge, the fixed-point audio synthesizer,
//! input bookkeeping and the hot-reload controller.
pub mod audio;
pub mod font;
pub mod gfx;
pub mod input;
pub mod reload;
pub mod wire;
