//! What the storage back ends outside this process need decided.

pub mod s3;
