//! The HTTP boundary of a product catalog split into a query side and a
//! command side: routing by method and path, the checks each handler makes
//! before it calls either side, and the responses built from the outcomes.

pub mod dispatch;
pub mod location;
pub mod response;
pub mod router;
pub mod service;
pub mod text;
