use vstd::prelude::*;

pub mod agent_event;
pub mod anthropic;
pub mod approval;
pub mod breakpoints;
pub mod budget;
pub mod cache;
pub mod cache_stats;
pub mod capabilities;
pub mod compaction;
pub mod compaction_prompt;
pub mod context;
pub mod event;
pub mod facts;
pub mod health;
pub mod journal;
pub mod memory_window;
pub mod message;
pub mod openai_stream;
pub mod pipeline;
pub mod records;
pub mod recovery;
pub mod router;
pub mod run;
pub mod session_data;
pub mod skills;
pub mod sse;
pub mod stream;
pub mod sub_engine;
pub mod text;
pub mod tool_dispatch;
pub mod token;
pub mod tool_runtime;
pub mod tool_types;

verus! {

}
