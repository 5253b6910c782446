pub mod fund_manager;
pub mod fund_laws;
