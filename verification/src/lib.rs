pub mod bootstrap;
pub mod endpoint;
pub mod names;
pub mod registry;
pub mod selection;
pub mod size;
pub mod text;
pub mod transfer;
pub mod workflow;
