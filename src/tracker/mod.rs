pub mod http;
pub mod peers;
pub mod udp;
