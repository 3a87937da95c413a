pub mod cross_map;
