//! Decisions, formats and plans behind the `leaflash` command: what to erase and write on
//! an SD card or SPI NOR flash, how the images and settings it reads are laid out, and what
//! its terminal interface does with a key.

pub mod app_laws;
pub mod card_laws;
pub mod device;
pub mod device_laws;
pub mod env_laws;
pub mod flash;
pub mod flash_laws;
pub mod function_laws;
pub mod gpt;
pub mod key_laws;
pub mod mtdparts;
pub mod mtdparts_laws;
pub mod nor_laws;
pub mod plan;
pub mod plan_laws;
pub mod result_laws;
pub mod rkfw;
pub mod rkfw_laws;
pub mod screen_laws;
pub mod search;
pub mod step_laws;
pub mod switch_laws;
pub mod switch_rootfs;
pub mod text;
pub mod text_laws;
pub mod tui;
pub mod tui_laws;
pub mod uboot;
pub mod uboot_env;
pub mod usb;
pub mod view;
