//! Voice packets of the first relay. The control and voice protocols
//! proper are those of `crate::rust_hanashite::protos`.

pub mod updmessage;
