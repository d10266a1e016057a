use vstd::prelude::*;

pub mod text;
pub mod num;
pub mod cleanup;
pub mod deepgram;
pub mod proxy;
pub mod finalize;
pub mod recording;
pub mod monitor;
pub mod meeting;
pub mod notifications;
pub mod oauth;
pub mod tokenizer;
pub mod decoder;
pub mod moonshine;
pub mod engines;
pub mod lifecycle;
pub mod logs;
pub mod sync_queue;
pub mod recording_log;
