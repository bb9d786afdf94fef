pub mod ancillary;
pub mod capturer;
pub mod convert;
pub mod error;
pub mod formats;
pub mod helper;
pub mod hwcodec;
pub mod hwconfig;
pub mod kms;
pub mod linux;
pub mod order;
pub mod pixel;
pub mod probing;
pub mod readback;
pub mod retry;
pub mod route;
pub mod scanout;
pub mod serving;
pub mod session;
pub mod startup;
pub mod sysfs;
pub mod text;
pub mod wayland;
pub mod wire;
pub mod x11;
