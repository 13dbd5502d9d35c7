//! Request and response rules of the HTTP, gRPC-JSON and gRPC-Web front ends.
pub mod grpc;
pub mod grpc_json;
pub mod grpc_web_json;
pub mod http;
