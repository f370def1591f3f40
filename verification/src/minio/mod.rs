//! The storage side: pools of backend connections, the choice among them,
//! and the resolution of a download link.

pub mod minio_parser;
pub mod minio_pool;
pub mod r2d2_minio;
