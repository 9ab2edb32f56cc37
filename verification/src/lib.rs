//! A small read/write proxy front-end for a remote issue-tracking API:
//! typed decoding of its loosely-versioned document model (events made of
//! polymorphic entries, with an open-world fallback for unknown kinds),
//! cursor-based pagination, per-request bearer authorization with
//! redirect-on-missing-credential control flow, the issue status-update
//! encoding, and the display-shaping rules of the views.

pub mod auth;
pub mod decode;
pub mod fetch;
pub mod json;
pub mod pagination;
pub mod render;
pub mod routes;
pub mod status;
pub mod seqs;
pub mod text;
