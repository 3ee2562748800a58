pub mod addr_range;
pub mod analyzer;
pub mod bitops;
pub mod decoder;
pub mod perf_reader;
