pub mod dsl;
pub mod functions;
pub mod gadget;
pub mod m31;
pub mod script;
pub mod utils;
