pub mod error;
pub mod explicit;
pub mod implicit;
pub mod linear;
pub mod stages;
pub mod trajectory;
