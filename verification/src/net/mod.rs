pub mod addr;
pub mod endpoint;
pub mod init;
pub mod socket;
pub mod tcp;
