use vstd::prelude::*;

use crate::json::Json;

verus! {

// Content blocks
/// A content block of an Anthropic message.
#[derive(Debug, Clone, PartialEq)]
pub enum ContentBlock {
    Text { text: String },
    Thinking { thinking: String, signature: String },
    Image { source: ImageSource },
    ToolUse { id: String, name: String, input: Json },
    ToolResult { tool_use_id: String, content: Option<Json>, is_error: Option<bool> },
    ServerToolUse { id: String, name: String, input: Json },
    WebSearchToolResult { tool_use_id: String, content: Json },
}

/// The source of an image block.
#[derive(Debug, Clone, PartialEq)]
pub enum ImageSource {
    Base64 { media_type: String, data: String },
    Url { url: String },
}

// Messages
/// A message of the conversation; its content is a string or a list of blocks.
#[derive(Debug, Clone, PartialEq)]
pub struct AnthropicMessage {
    pub role: String,
    pub content: Json,
}

// Tools
/// A tool offered to the model. A server-side tool has no input schema.
#[derive(Debug, Clone, PartialEq)]
pub struct AnthropicTool {
    pub name: String,
    pub description: Option<String>,
    pub input_schema: Option<Json>,
    pub tool_type: Option<String>,
}

/// How the model is to choose a tool.
#[derive(Debug, Clone, PartialEq)]
pub enum ToolChoice {
    Auto,
    Any,
    Tool { name: String },
}

// Requests
/// A block of the system prompt; `cache_control` holds the members of its map.
#[derive(Debug, Clone, PartialEq)]
pub struct SystemContentBlock {
    pub content_type: String,
    pub text: String,
    pub cache_control: Option<Vec<(String, Json)>>,
}

// Responses
/// Token usage of a response.
#[derive(Debug, Clone, Copy, PartialEq, Eq)]
pub struct AnthropicUsage {
    pub input_tokens: i32,
    pub output_tokens: i32,
}

/// A complete (non-streamed) response.
#[derive(Debug, Clone, PartialEq)]
pub struct AnthropicMessagesResponse {
    pub id: String,
    pub response_type: String,
    pub role: String,
    pub content: Vec<ContentBlock>,
    pub model: String,
    pub stop_reason: Option<String>,
    pub stop_sequence: Option<String>,
    pub usage: AnthropicUsage,
}

impl AnthropicMessagesResponse {
    /// A response of type "message" from the assistant, without stop reason or
    /// stop sequence.
    pub fn new(id: String, model: String, content: Vec<ContentBlock>, usage: AnthropicUsage) -> (r: Self)
        ensures
            r.id == id,
            r.response_type@ == "message"@,
            r.role@ == "assistant"@,
            r.content == content,
            r.model == model,
            r.stop_reason is None,
            r.stop_sequence is None,
            r.usage == usage,
    {
        AnthropicMessagesResponse {
            id,
            response_type: "message".to_owned(),
            role: "assistant".to_owned(),
            content,
            model,
            stop_reason: None,
            stop_sequence: None,
            usage,
        }
    }
}

// Streaming events
/// An event of a streamed response.
#[derive(Debug, Clone, PartialEq)]
pub enum StreamEvent {
    MessageStart { message: Json },
    ContentBlockStart { index: i32, content_block: Json },
    ContentBlockDelta { index: i32, delta: Delta },
    ContentBlockStop { index: i32 },
    MessageDelta { delta: Json, usage: MessageDeltaUsage },
    MessageStop,
    Ping,
}

/// The change that a content block delta carries.
#[derive(Debug, Clone, PartialEq)]
pub enum Delta {
    TextDelta { text: String },
    ThinkingDelta { thinking: String },
    InputJsonDelta { partial_json: String },
}

/// The usage carried by a message delta.
#[derive(Debug, Clone, PartialEq)]
pub struct MessageDeltaUsage {
    pub output_tokens: i32,
}

/// The message that a stream starts with.
#[derive(Debug, Clone, PartialEq)]
pub struct MessageStartData {
    pub id: String,
    pub message_type: String,
    pub role: String,
    pub content: Vec<Json>,
    pub model: String,
    pub usage: AnthropicUsage,
}

} // verus!
