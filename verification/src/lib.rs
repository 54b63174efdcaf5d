pub mod cipher;
pub mod codec;
pub mod keyderive;
pub mod naming;
pub mod xorstream;
