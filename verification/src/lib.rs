//! A multi-tenant gateway in front of S3-compatible object storage: the
//! decisions of the gateway, verified.
//!
//! The library holds the tenant configuration, the registries of session
//! and storage pools with their health flags, the choice of a healthy
//! pool, authentication, the resolution of a download link and the steps
//! of a request. It opens no connection itself: it says what is to be
//! asked of the session store, of the storage backend and of the upstream
//! response, and decides on what comes back.

pub mod auth;
pub mod cache;
pub mod config;
pub mod foreign;
pub mod headers;
pub mod minio;
pub mod minio_parser;
pub mod pool;
pub mod proxy;
pub mod string_map;
pub mod text;
