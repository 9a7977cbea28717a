//! A currency converter for a launcher: it reads a query such as `100 usd in chf`,
//! decides whether the rate service must be asked, and renders one result document
//! for every outcome. The HTTP call and the JSON encoding are left to the caller.

pub mod convert;
pub mod decimal;
pub mod pipeline;
pub mod query;
pub mod rates;
pub mod response;
pub mod text;
