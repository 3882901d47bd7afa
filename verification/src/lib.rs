pub mod date;
pub mod extract;
pub mod channel_state;
pub mod handler;
pub mod paper;
pub mod publish;
pub mod text;
