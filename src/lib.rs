pub mod chunks;
pub mod convert;
pub mod error;
pub mod metadata;
pub mod record;
pub mod stream;
pub mod text;
pub mod util;
