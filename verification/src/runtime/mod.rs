//! The runtime: buffers and media, the status of pipelines, and the decisions of the
//! tasks that run them.

pub mod fanout;
pub mod media;
pub mod mock;
pub mod pipeline_loop;
pub mod pool;
pub mod status;
pub mod supervisor;
