pub mod decimal256;
pub mod int128;
pub mod uint256;
