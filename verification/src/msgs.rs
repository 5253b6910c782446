pub mod factory;
