pub mod expand;
pub mod locate;
pub mod resolve;
pub mod substitute;
pub mod types;
