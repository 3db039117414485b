//! Logic of the benchmark tools: run length, request accounting and reporting.
pub mod mock_server;
pub mod report;
pub mod throughput;
pub mod throughput_subscriber;
