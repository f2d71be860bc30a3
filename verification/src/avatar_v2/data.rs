pub mod asset;
pub mod attachment;
pub mod avatar;
pub mod driver;
pub mod export;
pub mod layer;
pub mod menu;
pub mod parameter;
