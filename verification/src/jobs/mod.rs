//! Background jobs: scraping jobs, their queue and their records.
pub mod folders;
pub mod manager;
pub mod rust_logi;

pub use manager::{
    AccountResult, EtcAccountInfo, EtcBatchRequest, EtcBatchResult, EtcScrapeRequest,
    EtcScrapeResult, Job, JobPriority, JobStatus, JobType,
};
