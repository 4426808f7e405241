use vstd::prelude::*;

pub mod text;
pub mod highlight;
pub mod codec;
pub mod forms;
pub mod keys;
pub mod ops;
pub mod identities;
pub mod proto;
pub mod qr;
pub mod identicon;
pub mod tasks;
pub mod playground;
