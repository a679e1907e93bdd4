//! Two-model chat pipeline: a reasoning call, then a crafting call, behind an
//! OpenAI-compatible protocol, with short-lived conversation sessions.

pub mod text;
pub mod models;
pub mod json;
pub mod stream;
pub mod session;
pub mod classify;
pub mod outbound;
pub mod reasoning;
pub mod provider;
pub mod pipeline;
pub mod ids;
