//! Chunk-and-embed pipeline: split a markdown document into logical sections
//! with the help of a remote chat-completion endpoint, embed the resulting
//! chunks through an embedding provider, and pair every chunk with its
//! embedding vector, position by position.
//!
//! The modules hold the pipeline's decision logic; all network traffic is
//! performed by the surrounding application, which feeds the outcomes of its
//! calls into the functions defined here.

pub mod chunking;
pub mod pipeline;
pub mod retry;
pub mod segmentation;
