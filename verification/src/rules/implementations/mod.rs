//! The checks, one per rule.

pub mod doc001;
pub mod test001;
pub mod test002;
pub mod test003;
