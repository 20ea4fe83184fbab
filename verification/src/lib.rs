pub mod codec;
pub mod gig;
pub mod service;
pub mod store;

pub use gig::Gig;
pub use gig::GigError;
pub use gig::GigPayload;
pub use gig::GigStatus;
pub use service::GigService;
