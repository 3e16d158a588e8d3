pub mod block;
pub mod chars;
pub mod datetime;
pub mod diagnostics;
pub mod header;
pub mod highlight;
pub mod location;
pub mod metadata;
pub mod pipeline;
