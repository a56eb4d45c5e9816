pub mod bpe;
pub mod codec;
pub mod decimal;
pub mod ranks;
pub mod scan;
pub mod special;
pub mod tiktoken;
pub mod vocabulary;
