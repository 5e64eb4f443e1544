//! What the listener side needs from the core: the certificate store and
//! the block page.

pub mod block_page;
pub mod certs;
pub mod proxy;
