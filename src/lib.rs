pub mod garbage_collection;
pub mod node;
