pub mod ws;
pub mod ws_message;
