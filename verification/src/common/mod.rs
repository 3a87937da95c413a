pub mod bubble_sort;
pub mod le_bytes;
pub mod parented_list;
pub mod utf8;
