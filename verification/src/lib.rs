//! Context-window, prompt-assembly, response-parsing and NPC-tracking logic
//! for the Janus roleplay chat application, with its contracts proved by Verus.

pub mod assembly;
pub mod backup;
pub mod budget;
pub mod cards;
pub mod entities;
pub mod error;
pub mod history;
pub mod llm_prompts;
pub mod lorebook;
pub mod models;
pub mod npc;
pub mod npc_flow;
pub mod paths;
pub mod prompt;
pub mod records;
pub mod resolve;
pub mod response_parser;
pub mod scene;
pub mod text;
pub mod tokenizer;
pub mod window;
