pub mod received;
pub mod request;
pub mod response;
