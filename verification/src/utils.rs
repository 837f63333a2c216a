//! Small utilities shared by the asset codecs.

pub mod bitstream;
