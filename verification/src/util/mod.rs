pub mod expand;
pub mod key_map;
pub mod pattern;
pub mod scan;
pub mod string_util;
pub mod text;
