pub mod block;
pub mod histograms;
pub mod map;
pub mod block_list;
