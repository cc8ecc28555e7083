//! A Vigenère cipher for message text, and the verified decisions of a
//! small UDP messaging system: message framing, acknowledgement retries,
//! address checks and the loss/delay choices of a test proxy.

pub mod cipher;
mod text;
pub mod wire;
pub mod data_types;
pub mod networking_util;
pub mod proxy_util;
pub mod client_util;
pub mod server_util;
mod random;

pub use cipher::{count_chars, lower_char_adjustment, shift_vig, split_payload, upper_char_adjustment};
