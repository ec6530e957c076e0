//! Item identifier lists: the codec for chains of length-prefixed path
//! segments that a shell namespace host exchanges with a folder extension,
//! the total order over such chains, and the enumeration cursor that pages
//! through a fixed listing of them.

pub mod class_factory;
pub mod columns;
pub mod custom_folder;
pub mod error;
pub mod hresult;
pub mod id_enumerator;
pub mod item_id;
pub mod itemidlist;
pub mod location;
pub mod order;
pub mod ref_count;
pub mod relations;
pub mod round_trip;
pub mod wide;

pub use class_factory::ClassFactory;
pub use custom_folder::CustomFolder;
pub use error::CodecError;
pub use hresult::HRESULT;
pub use id_enumerator::EnumIdList;
pub use item_id::ItemId;
pub use itemidlist::ItemIdList;
pub use location::Location;
