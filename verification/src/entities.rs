//! The records the application stores and shows: provider kinds, media
//! references, search hits, memory-graph nodes and embedded lorebooks,
//! with the defaults their stored forms fall back on.

use vstd::prelude::*;

use crate::models::MessageRole;
use crate::text::{owned, str_eq};

verus! {

/// The type of AI capability a provider offers.
#[derive(Debug, Clone, Copy, PartialEq, Eq, Structural)]
pub enum ProviderType {
    /// Text generation / chat completion
    Llm,
    /// Image generation
    Image,
    /// Video generation
    Video,
}

/// The specific adapter implementation for a provider.
#[derive(Debug, Clone, Copy, PartialEq, Eq, Structural)]
pub enum ProviderAdapter {
    /// Local Ollama instance
    Ollama,
    /// OpenRouter API aggregator
    OpenRouter,
    /// Generic OpenAI-compatible API (LM Studio, KoboldCPP, vLLM, ...)
    OpenAiCompatible,
    /// SiliconFlow API (LLM + Image + Video)
    SiliconFlow,
    /// Hugging Face Inference API
    HuggingFace,
    /// Local ComfyUI instance for image/video generation
    ComfyUi,
    /// Local WanGP instance for image/video generation, reached over its MCP server
    WanGp,
    /// AI Horde, the crowdsourced asynchronous image generation cluster
    AiHorde,
    /// Anthropic API
    Anthropic,
    /// Google Gemini API
    Gemini,
    /// Cohere API (Command R+)
    Cohere,
    /// DeepSeek API
    DeepSeek,
    /// Groq API (fast inference)
    Groq,
    /// Perplexity API (search-augmented)
    Perplexity,
    /// xAI API (Grok models)
    Xai,
    /// Hyperbolic API
    Hyperbolic,
    /// Moonshot API (Kimi)
    Moonshot,
    /// Together API (open-source models)
    Together,
}

/// A cast member's portrait handed to an image or video generation as a
/// reference image; `relative_path` is relative to the app data directory.
#[derive(Debug, Clone)]
pub struct CharacterImageRef {
    pub character_id: String,
    pub character_name: String,
    pub relative_path: String,
}

/// An image attached to a user message; `relative_path` is relative to the
/// app data directory.
#[derive(Debug, Clone)]
pub struct MessageAttachment {
    pub relative_path: String,
    pub mime_type: String,
}

/// Cached capability metadata for an AI Horde image model.
#[derive(Debug, Clone)]
pub struct AiHordeModelInfo {
    pub name: String,
    pub baseline: Option<String>,
    pub inpainting: bool,
    pub nsfw: bool,
    pub style: Option<String>,
    pub img2img_supported: bool,
    pub worker_count: i64,
}

/// A hit of the full-text message search, with the conversation and
/// character it belongs to and a snippet with `<mark>` around the matches.
#[derive(Debug, Clone)]
pub struct SearchResult {
    pub message_id: String,
    pub conversation_id: String,
    pub role: MessageRole,
    pub content: String,
    pub snippet: String,
    pub conversation_title: String,
    pub character_name: Option<String>,
    pub created_at: String,
}

/// Minimal conversation info for memory-graph rendering.
#[derive(Debug, Clone)]
pub struct MemoryGraphConversation {
    pub id: String,
    pub title: String,
    pub character_id: String,
    pub memory_count: i32,
    /// The conversation this one was branched from, if any.
    pub parent_conversation_id: Option<String>,
}

/// One cast member of a multi-character memory graph.
#[derive(Debug, Clone)]
pub struct MemoryGraphCharacter {
    pub id: String,
    pub name: String,
}

/// A conversation as the memory graph reads it from the store.
#[derive(Debug, Clone)]
pub struct ConversationRow {
    pub id: String,
    pub title: String,
    pub parent_conversation_id: Option<String>,
}

/// How many memories were recorded in conversation `id`.
pub open spec fn memories_in(memory_conversations: Seq<Option<String>>, id: Seq<char>) -> nat
    decreases memory_conversations.len(),
{
    if memory_conversations.len() == 0 {
        0
    } else {
        memories_in(memory_conversations.drop_last(), id) + match memory_conversations.last() {
            Some(c) => if c@ == id { 1nat } else { 0nat },
            None => 0nat,
        }
    }
}

proof fn lemma_memories_in_bounded(memory_conversations: Seq<Option<String>>, id: Seq<char>)
    ensures
        memories_in(memory_conversations, id) <= memory_conversations.len(),
    decreases memory_conversations.len(),
{
    if memory_conversations.len() > 0 {
        lemma_memories_in_bounded(memory_conversations.drop_last(), id);
    }
}

fn count_memories_in(memory_conversations: &[Option<String>], id: &str) -> (n: i32)
    requires
        memory_conversations@.len() <= i32::MAX,
    ensures
        n == memories_in(memory_conversations@, id@),
{
    let mut n: i32 = 0;
    let mut k: usize = 0;
    while k < memory_conversations.len()
        invariant
            k <= memory_conversations@.len() <= i32::MAX,
            n == memories_in(memory_conversations@.take(k as int), id@),
        decreases memory_conversations.len() - k,
    {
        proof {
            assert(memory_conversations@.take(k as int + 1).drop_last() =~= memory_conversations@.take(k as int));
            lemma_memories_in_bounded(memory_conversations@.take(k as int), id@);
        }
        match &memory_conversations[k] {
            Some(c) => {
                if str_eq(c.as_str(), id) {
                    n = n + 1;
                }
            },
            None => {},
        }
        k = k + 1;
    }
    proof {
        assert(memory_conversations@.take(memory_conversations@.len() as int) =~= memory_conversations@);
    }
    n
}

/// Whether `node` is the memory-graph node of `row` for the character,
/// counting the memories recorded in it.
pub open spec fn is_conversation_node(
    node: MemoryGraphConversation,
    row: ConversationRow,
    character_id: Seq<char>,
    memory_conversations: Seq<Option<String>>,
) -> bool {
    &&& node.id@ == row.id@
    &&& node.title@ == row.title@
    &&& node.character_id@ == character_id
    &&& node.memory_count == memories_in(memory_conversations, row.id@)
    &&& node.parent_conversation_id == row.parent_conversation_id
}

/// The conversation nodes of a character's memory graph, one per row in
/// order; `memory_conversations` holds the conversation of each of the
/// character's memories (`None` for one recorded outside any conversation).
pub fn conversation_nodes(
    character_id: &str,
    rows: &[ConversationRow],
    memory_conversations: &[Option<String>],
) -> (r: Vec<MemoryGraphConversation>)
    requires
        memory_conversations@.len() <= i32::MAX,
    ensures
        r@.len() == rows@.len(),
        forall|i: int|
            0 <= i < rows@.len() ==> is_conversation_node(
                #[trigger] r@[i],
                rows@[i],
                character_id@,
                memory_conversations@,
            ),
{
    let mut out: Vec<MemoryGraphConversation> = Vec::new();
    let mut k: usize = 0;
    while k < rows.len()
        invariant
            k <= rows@.len(),
            memory_conversations@.len() <= i32::MAX,
            out@.len() == k,
            forall|i: int|
                0 <= i < k ==> is_conversation_node(#[trigger] out@[i], rows@[i], character_id@, memory_conversations@),
        decreases rows.len() - k,
    {
        let row = &rows[k];
        let node = MemoryGraphConversation {
            id: row.id.clone(),
            title: row.title.clone(),
            character_id: owned(character_id),
            memory_count: count_memories_in(memory_conversations, row.id.as_str()),
            parent_conversation_id: match &row.parent_conversation_id {
                Some(p) => Some(p.clone()),
                None => None,
            },
        };
        out.push(node);
        k = k + 1;
    }
    out
}

/// A row of the enabled-models table.
#[derive(Debug, Clone)]
pub struct EnabledModelRow {
    pub provider_id: String,
    pub model_id: String,
    pub model_type: String,
}

/// Basic app metadata surfaced to the frontend.
#[derive(Debug, Clone)]
pub struct AppInfo {
    pub name: String,
    pub version: String,
    pub description: String,
}

impl AppInfo {
    /// The metadata of the application `Janus` at the given package
    /// version and description.
    pub fn janus(version: &str, description: &str) -> (a: AppInfo)
        ensures
            a.name@ == "Janus"@,
            a.version@ == version@,
            a.description@ == description@,
    {
        AppInfo { name: owned("Janus"), version: owned(version), description: owned(description) }
    }
}

/// An embedded lorebook within a character card.
#[derive(Debug, Clone)]
pub struct CharacterBook {
    /// Optional name for this lorebook
    pub name: Option<String>,
    /// Optional description
    pub description: Option<String>,
    /// The lorebook entries
    pub entries: Vec<CharacterBookEntry>,
}

/// A single lorebook entry within a character book.
#[derive(Debug, Clone)]
pub struct CharacterBookEntry {
    /// Trigger keywords: the entry is injected when any appears in chat
    pub keys: Vec<String>,
    /// The content to inject into the prompt when triggered
    pub content: String,
    /// Whether this entry is active
    pub enabled: bool,
    /// Order relative to other entries in the prompt
    pub insertion_order: i32,
    /// Whether keyword matching is case-sensitive
    pub case_sensitive: bool,
    /// Priority level (higher = more important)
    pub priority: i32,
    /// If true, always injected regardless of keyword matches
    pub constant: bool,
    /// Optional display name for the entry
    pub name: Option<String>,
}

/// A stored entry's `enabled` when the field is missing: enabled.
pub fn default_true() -> (b: bool)
    ensures
        b,
{
    true
}

/// A stored entry's `insertion_order` when the field is missing.
pub fn default_insertion_order() -> (n: i32)
    ensures
        n == 100,
{
    100
}

/// A stored entry's `priority` when the field is missing.
pub fn default_priority() -> (n: i32)
    ensures
        n == 10,
{
    10
}

/// A conversation's `memory_scope` when the field is missing.
pub fn default_memory_scope() -> (s: String)
    ensures
        s@ == "character"@,
{
    owned("character")
}

/// The `max_tokens` of generation parameters when the field is missing.
pub fn default_max_tokens() -> (n: u32)
    ensures
        n == 1024,
{
    1024
}

/// A memory's `importance` when the field is missing.
pub fn default_importance() -> (n: i32)
    ensures
        n == 5,
{
    5
}

/// Video width in pixels when the field is missing.
pub fn default_video_width() -> (n: u32)
    ensures
        n == 1280,
{
    1280
}

/// Video height in pixels when the field is missing.
pub fn default_video_height() -> (n: u32)
    ensures
        n == 720,
{
    720
}

/// Video frames per second when the field is missing.
pub fn default_fps() -> (n: u32)
    ensures
        n == 24,
{
    24
}

/// Image width in pixels when the field is missing.
pub fn default_image_width() -> (n: u32)
    ensures
        n == 1024,
{
    1024
}

/// Image height in pixels when the field is missing.
pub fn default_image_height() -> (n: u32)
    ensures
        n == 1024,
{
    1024
}

/// Image inference steps when the field is missing.
pub fn default_steps() -> (n: u32)
    ensures
        n == 20,
{
    20
}

} // verus!
