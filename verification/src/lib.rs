pub mod cli;
pub mod digits;
pub mod price;
pub mod report;
pub mod sampler;
