pub mod msg;
