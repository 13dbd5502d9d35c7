//! Verified core of the browser render service: configuration parsing,
//! gRPC-Web framing, the job queue and the request/response rules of the
//! HTTP and gRPC-JSON front ends.
pub mod text;
pub mod config;
pub mod grpc_web_client;
pub mod clock;
pub mod browser;
pub mod storage;
pub mod jobs;
pub mod server;
pub mod startup;
