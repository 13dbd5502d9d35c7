//! Session management on behalf of the scraping jobs.
pub mod renderer;

pub use renderer::{HonoApiResponse, RendererError};
