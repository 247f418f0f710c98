//! The verified core of a tool that exports the keys of one's own FindMy
//! accessories as property list files.

pub mod accessory_plist;
pub mod assembly;
pub mod device;
pub mod digits;
pub mod entries;
pub mod escrow;
pub mod export;
pub mod filename;
pub mod options;
pub mod property_list;
pub mod record_book;
pub mod records;
pub mod session;
pub mod string_table;
pub mod text;
