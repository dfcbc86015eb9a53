pub mod laws;
pub mod single_linked_list;

pub use crate::single_linked_list::SingleLinkedList;
