//! Verified core of a native HTTP backend for Python Requests.

pub mod adapter_state;
pub mod admission;
pub mod allocation;
pub mod auth;
pub mod behavior;
pub mod benchmark;
pub mod body_prepare;
pub mod body_stream;
pub mod bridge;
pub mod callables;
pub mod canonical;
pub mod canonical_build;
pub mod chunker;
pub mod cookie_make;
pub mod cookie_pipeline;
pub mod cookie_shape;
pub mod cookie_state;
pub mod cookie_trial;
pub mod drive;
pub mod errors;
pub mod headers;
pub mod heap;
pub mod hooks;
pub mod intrinsic;
pub mod known;
pub mod landmarks;
pub mod lifecycle;
pub mod managers;
pub mod model_state;
pub mod patterns;
pub mod pools;
pub mod prepare;
pub mod raw;
pub mod registry;
pub mod report;
pub mod resend;
pub mod resend_action;
pub mod response_lines;
pub mod response_meta;
pub mod response_read;
pub mod response_state;
pub mod retry;
pub mod sending;
pub mod sorting;
pub mod tables;
pub mod text;
