pub mod clip;
pub mod console;
pub mod link;
pub mod proto;
pub mod qr;
pub mod store;
pub mod text;
