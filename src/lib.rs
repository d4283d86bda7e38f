pub mod amm;
pub mod constant_product;
pub mod errors;
pub mod factory;
pub mod filters;
pub mod fixed_point;
pub mod ids;
pub mod mira;
pub mod oxiswap;
pub mod price;
pub mod stable_math;
pub mod u256;
