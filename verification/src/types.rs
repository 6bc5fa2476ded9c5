//! Inference-side data types: model handles, load and offload settings, chat
//! messages, tool calls, and the activations exchanged between pipeline
//! stages.
use vstd::prelude::*;

use crate::text::{join, join_strings, str_eq};

verus! {

broadcast use vstd::string::group_string_axioms;

/// A JSON value, as `serde_json` represents it.
#[verifier::external_type_specification]
#[verifier::external_body]
pub struct ExJsonValue(serde_json::Value);

/// `serde_json::Value::clone` returns a value equal to the one cloned
/// (`Value` derives `Clone`).
pub assume_specification[ <serde_json::Value as Clone>::clone ](v: &serde_json::Value) -> (r:
    serde_json::Value)
    ensures
        r == *v,
;

/// `Range::clone` clones both bounds (`Range` derives `Clone`).
pub assume_specification<Idx: Clone>[ <core::ops::Range<Idx> as Clone>::clone ](
    r: &core::ops::Range<Idx>,
) -> (c: core::ops::Range<Idx>)
    ensures
        cloned(r.start, c.start),
        cloned(r.end, c.end),
;

/// Inference engine that runs a model.
#[derive(Clone, Copy, Debug, PartialEq, Eq, Structural)]
pub enum InferenceEngine {
    LlamaCpp,
    Candle,
}

/// Errors of model loading and generation.
#[derive(Clone, Debug)]
pub enum InferenceError {
    ModelNotFound(String),
    UnsupportedFormat(String),
    LoadError(String),
    GenerationError(String),
    InvalidHandle,
}

/// Source of model handle ids: each id it hands out is the one after the
/// previous one (wrapping at `u64::MAX`), starting at 1.
pub struct HandleCounter {
    next: u64,
}

impl HandleCounter {
    /// The id the counter hands out next.
    pub closed spec fn next_value(&self) -> u64 {
        self.next
    }

    /// A counter whose first id is 1.
    pub fn new() -> (c: HandleCounter)
        ensures
            c.next_value() == 1,
    {
        HandleCounter { next: 1 }
    }

    /// Hand out the next id.
    pub fn next_id(&mut self) -> (id: u64)
        ensures
            id == old(self).next_value(),
            final(self).next_value() == (if old(self).next_value() == u64::MAX {
                0
            } else {
                (old(self).next_value() + 1) as u64
            }),
    {
        let id = self.next;
        self.next = if self.next == u64::MAX {
            0
        } else {
            self.next + 1
        };
        id
    }
}

/// Two ids handed out one after the other by the same counter differ,
/// except when the first is the last id before the counter wraps.
pub proof fn handle_ids_distinct(first: u64, second: u64)
    requires
        second == (if first == u64::MAX {
            0
        } else {
            (first + 1) as u64
        }),
    ensures
        first != second,
{
}

/// Opaque handle to a loaded model.
#[derive(Clone, Debug, PartialEq, Eq)]
pub struct ModelHandle {
    pub id: u64,
    pub model_path: String,
    pub engine: InferenceEngine,
}

impl ModelHandle {
    /// A handle for the model at `path`, with the counter's next id.
    pub fn new(path: String, engine: InferenceEngine, counter: &mut HandleCounter) -> (h:
        ModelHandle)
        ensures
            h.id == old(counter).next_value(),
            h.model_path == path,
            h.engine == engine,
            final(counter).next_value() == (if old(counter).next_value() == u64::MAX {
                0
            } else {
                (old(counter).next_value() + 1) as u64
            }),
    {
        let id = counter.next_id();
        ModelHandle { id, model_path: path, engine }
    }
}

/// How to distribute model layers across GPU, CPU, disk and mesh peers.
#[derive(Clone, Debug, PartialEq, Eq, Structural)]
pub struct OffloadConfig {
    /// Layers on the GPU; `None` lets the engine decide.
    pub gpu_layers: Option<u32>,
    pub cpu_layers: Option<u32>,
    pub disk_mmap: bool,
    /// Layers on mesh peers; `None` means no mesh.
    pub mesh_layers: Option<u32>,
    /// Let the runtime compute the split from the hardware.
    pub auto: bool,
}

impl Default for OffloadConfig {
    fn default() -> (c: OffloadConfig)
        ensures
            c == (OffloadConfig {
                gpu_layers: None,
                cpu_layers: None,
                disk_mmap: false,
                mesh_layers: None,
                auto: true,
            }),
    {
        OffloadConfig {
            gpu_layers: None,
            cpu_layers: None,
            disk_mmap: false,
            mesh_layers: None,
            auto: true,
        }
    }
}

/// The layer range a node runs in pipeline-parallel inference.
#[derive(Clone, Debug)]
pub struct PipelineStageConfig {
    pub layer_range: core::ops::Range<u32>,
    pub total_layers: u32,
}

impl PipelineStageConfig {
    /// The stage starts at the first layer.
    pub fn is_first_stage(&self) -> (r: bool)
        ensures
            r == (self.layer_range.start == 0),
    {
        self.layer_range.start == 0
    }

    /// The stage ends at the last layer.
    pub fn is_last_stage(&self) -> (r: bool)
        ensures
            r == (self.layer_range.end == self.total_layers),
    {
        self.layer_range.end == self.total_layers
    }
}

/// Settings for loading a model into an engine.
#[derive(Clone, Debug)]
pub struct LoadConfig {
    pub context_length: u32,
    pub offload: OffloadConfig,
    pub batch_size: u32,
    /// CPU threads; `None` detects them.
    pub threads: Option<u32>,
    pub use_mmap: bool,
    pub use_mlock: bool,
    pub seed: Option<u64>,
    /// Load only this layer range, for pipeline-parallel inference.
    pub pipeline_stage: Option<PipelineStageConfig>,
}

impl Default for LoadConfig {
    fn default() -> (c: LoadConfig)
        ensures
            c.context_length == 4096,
            c.offload == (OffloadConfig {
                gpu_layers: None,
                cpu_layers: None,
                disk_mmap: false,
                mesh_layers: None,
                auto: true,
            }),
            c.batch_size == 512,
            c.threads is None,
            c.use_mmap,
            !c.use_mlock,
            c.seed is None,
            c.pipeline_stage is None,
    {
        LoadConfig {
            context_length: 4096,
            offload: OffloadConfig::default(),
            batch_size: 512,
            threads: None,
            use_mmap: true,
            use_mlock: false,
            seed: None,
            pipeline_stage: None,
        }
    }
}

/// A part of a multimodal user message.
#[derive(Clone, Debug)]
pub enum ContentPart {
    Text { text: String },
    Image { data: Vec<u8>, media_type: String },
    ImageUrl { url: String },
}

impl ContentPart {
    /// The part is an image, inline or by URL.
    pub open spec fn is_image(&self) -> bool {
        self is Image || self is ImageUrl
    }
}

/// Names the standard base64 encoding, with padding, of bytes.
pub uninterp spec fn base64_encoded(data: Seq<u8>) -> Seq<char>;

/// Names the standard base64 decoding of a text: its bytes, or none when
/// the text is not canonical padded standard base64.
pub uninterp spec fn base64_decoded(text: Seq<char>) -> Option<Seq<u8>>;

/// Names the message of the error that standard base64 decoding reports for
/// a text.
pub uninterp spec fn base64_error(text: Seq<char>) -> Seq<char>;

/// `base64::engine::general_purpose::STANDARD.encode`: the padded base64
/// text of the bytes, which the same engine decodes back to them. (A slice
/// never exceeds `isize::MAX` bytes, so the encoded size cannot overflow.)
#[verifier::external_body]
fn base64_encode(data: &[u8]) -> (r: String)
    requires
        data@.len() <= isize::MAX,
    ensures
        r@ == base64_encoded(data@),
        base64_decoded(r@) == Some(data@),
{
    base64::Engine::encode(&base64::engine::general_purpose::STANDARD, data)
}

/// `base64::engine::general_purpose::STANDARD.decode`: the bytes, or the
/// decoding error's message.
#[verifier::external_body]
fn base64_decode(text: &str) -> (r: Result<Vec<u8>, String>)
    ensures
        match r {
            Ok(v) => base64_decoded(text@) == Some(v@),
            Err(m) => base64_decoded(text@) is None && m@ == base64_error(text@),
        },
{
    match base64::Engine::decode(&base64::engine::general_purpose::STANDARD, text) {
        Ok(v) => Ok(v),
        Err(e) => Err(e.to_string()),
    }
}

/// The image part that a serialized `image` part stands for: its base64
/// `data` decoded, with its media type. Data that is not base64 is an error
/// with the decoder's message.
pub fn image_part_from(data: &str, media_type: String) -> (r: Result<ContentPart, String>)
    ensures
        match base64_decoded(data@) {
            Some(bytes) => r matches Ok(ContentPart::Image { data: d, media_type: m }) && d@ == bytes
                && m == media_type,
            None => r matches Err(e) && e@ == base64_error(data@),
        },
{
    match base64_decode(data) {
        Ok(bytes) => Ok(ContentPart::Image { data: bytes, media_type }),
        Err(e) => Err(e),
    }
}

/// The serialized `data` of an inline image part: its bytes in base64;
/// nothing for other parts.
pub fn image_part_data(part: &ContentPart) -> (r: Option<String>)
    requires
        part matches ContentPart::Image { data, .. } ==> data@.len() <= isize::MAX,
    ensures
        match part {
            ContentPart::Image { data, .. } => r matches Some(s) && s@ == base64_encoded(data@)
                && base64_decoded(s@) == Some(data@),
            _ => r is None,
        },
{
    match part {
        ContentPart::Image { data, .. } => Some(base64_encode(data.as_slice())),
        _ => None,
    }
}

/// A tool call produced by the model.
#[derive(Clone, Debug)]
pub struct ToolCallResponse {
    pub tool_name: String,
    pub arguments: serde_json::Value,
    pub call_id: String,
}

/// A message in a chat conversation.
#[derive(Clone, Debug)]
pub enum ChatMessage {
    System(String),
    User(Vec<ContentPart>),
    Assistant { content: Option<String>, tool_calls: Vec<ToolCallResponse> },
    ToolResult { tool_call_id: String, content: String },
}

/// The texts of the text parts, in order.
pub open spec fn text_parts(parts: Seq<ContentPart>) -> Seq<Seq<char>>
    decreases parts.len(),
{
    if parts.len() == 0 {
        Seq::empty()
    } else {
        let rest = text_parts(parts.drop_last());
        match parts.last() {
            ContentPart::Text { text } => rest.push(text@),
            _ => rest,
        }
    }
}

/// The image parts, in order.
pub open spec fn image_parts(parts: Seq<ContentPart>) -> Seq<ContentPart> {
    parts.filter(|p: ContentPart| p.is_image())
}

impl ChatMessage {
    /// A text-only assistant message.
    pub fn assistant(text: String) -> (m: ChatMessage)
        ensures
            m matches ChatMessage::Assistant { content, tool_calls } && content == Some(text)
                && tool_calls@.len() == 0,
    {
        ChatMessage::Assistant { content: Some(text), tool_calls: Vec::new() }
    }

    /// An assistant message with tool calls.
    pub fn assistant_with_tool_calls(content: Option<String>, tool_calls: Vec<ToolCallResponse>) -> (m:
        ChatMessage)
        ensures
            m == (ChatMessage::Assistant { content, tool_calls }),
    {
        ChatMessage::Assistant { content, tool_calls }
    }

    /// A text-only user message.
    pub fn user_text(text: &str) -> (m: ChatMessage)
        ensures
            m matches ChatMessage::User(parts) && parts@.len() == 1 && (parts@[0] matches ContentPart::Text {
                text: t,
            } && t@ == text@),
    {
        let mut parts: Vec<ContentPart> = Vec::new();
        parts.push(ContentPart::Text { text: text.to_owned() });
        ChatMessage::User(parts)
    }

    /// The text of a user message with its text parts joined by newlines,
    /// ignoring images; `None` for other messages or when there is no text.
    pub fn user_text_content(&self) -> (r: Option<String>)
        ensures
            match self {
                ChatMessage::User(parts) => if text_parts(parts@).len() == 0 {
                    r is None
                } else {
                    r matches Some(s) && s@ == join(text_parts(parts@), "\n"@)
                },
                _ => r is None,
            },
    {
        match self {
            ChatMessage::User(parts) => {
                let mut texts: Vec<String> = Vec::new();
                let mut i: usize = 0;
                while i < parts.len()
                    invariant
                        i <= parts@.len(),
                        texts@.map_values(|t: String| t@) == text_parts(parts@.take(i as int)),
                    decreases parts@.len() - i,
                {
                    proof {
                        assert(parts@.take(i + 1).drop_last() =~= parts@.take(i as int));
                        assert(parts@.take(i + 1).last() == parts@[i as int]);
                    }
                    match &parts[i] {
                        ContentPart::Text { text } => {
                            let ghost before = texts@;
                            texts.push(text.clone());
                            proof {
                                assert(texts@.map_values(|t: String| t@) =~= before.map_values(
                                    |t: String| t@,
                                ).push(text@));
                            }
                        },
                        _ => {},
                    }
                    i = i + 1;
                }
                proof {
                    assert(parts@.take(parts@.len() as int) =~= parts@);
                }
                if texts.len() == 0 {
                    None
                } else {
                    Some(join_strings(&texts, "\n"))
                }
            },
            _ => None,
        }
    }

    /// Whether a user message holds any image part.
    pub fn has_images(&self) -> (r: bool)
        ensures
            match self {
                ChatMessage::User(parts) => r == exists|i: int|
                    0 <= i < parts@.len() && (#[trigger] parts@[i]).is_image(),
                _ => !r,
            },
    {
        match self {
            ChatMessage::User(parts) => any_image(parts),
            _ => false,
        }
    }

    /// The image parts of a user message, in order; none for other messages.
    pub fn images(&self) -> (r: Vec<&ContentPart>)
        ensures
            match self {
                ChatMessage::User(parts) => r@.len() == image_parts(parts@).len() && forall|k: int|
                    0 <= k < r@.len() ==> *r@[k] == #[trigger] image_parts(parts@)[k],
                _ => r@.len() == 0,
            },
    {
        let mut out: Vec<&ContentPart> = Vec::new();
        match self {
            ChatMessage::User(parts) => {
                let mut i: usize = 0;
                while i < parts.len()
                    invariant
                        i <= parts@.len(),
                        out@.len() == image_parts(parts@.take(i as int)).len(),
                        forall|k: int|
                            0 <= k < out@.len() ==> *out@[k] == #[trigger] image_parts(
                                parts@.take(i as int),
                            )[k],
                    decreases parts@.len() - i,
                {
                    proof {
                        assert(parts@.take(i + 1).drop_last() =~= parts@.take(i as int));
                        assert(parts@.take(i + 1).last() == parts@[i as int]);
                        reveal(Seq::filter);
                    }
                    let p = &parts[i];
                    match p {
                        ContentPart::Text { .. } => {},
                        _ => {
                            out.push(p);
                        },
                    }
                    i = i + 1;
                }
                proof {
                    assert(parts@.take(parts@.len() as int) =~= parts@);
                }
                out
            },
            _ => out,
        }
    }
}

/// Whether some part is an image.
fn any_image(parts: &Vec<ContentPart>) -> (r: bool)
    ensures
        r == exists|i: int| 0 <= i < parts@.len() && (#[trigger] parts@[i]).is_image(),
{
    let mut i: usize = 0;
    while i < parts.len()
        invariant
            i <= parts@.len(),
            forall|j: int| 0 <= j < i ==> !(#[trigger] parts@[j]).is_image(),
        decreases parts@.len() - i,
    {
        match &parts[i] {
            ContentPart::Text { .. } => {},
            _ => {
                assert(parts@[i as int].is_image());
                return true;
            },
        }
        i = i + 1;
    }
    false
}

/// Whether and how the model should use tools.
#[derive(Clone, Debug)]
pub enum ToolChoice {
    Auto,
    Required,
    /// The model must not call tools.
    NoTools,
    Specific(String),
}

/// A block within a mixed response.
#[derive(Clone, Debug)]
pub enum ContentBlock {
    Text(String),
    ToolCall(ToolCallResponse),
}

/// Response of a non-streaming generation request.
#[derive(Clone, Debug)]
pub enum GenerateResponse {
    Text(String),
    ToolCall(ToolCallResponse),
    Mixed(Vec<ContentBlock>),
}

/// Summary of a loaded model.
#[derive(Clone, Debug)]
pub struct ModelInfo {
    pub handle_id: u64,
    pub model_path: String,
    pub engine: InferenceEngine,
    pub context_length: u32,
    pub gpu_layers: Option<u32>,
}

/// Element type of an activation tensor.
#[derive(Clone, Copy, Debug, PartialEq, Eq, Structural)]
pub enum ActivationDtype {
    F32,
    F16,
    BF16,
}

impl ActivationDtype {
    /// Bytes per element.
    pub open spec fn spec_byte_size(&self) -> usize {
        match self {
            ActivationDtype::F32 => 4,
            _ => 2,
        }
    }

    /// Bytes per element: 4 for F32, 2 for F16 and BF16.
    pub fn byte_size(&self) -> (r: usize)
        ensures
            r == self.spec_byte_size(),
    {
        match self {
            ActivationDtype::F32 => 4,
            ActivationDtype::F16 | ActivationDtype::BF16 => 2,
        }
    }
}

/// A serialized activation tensor, exchanged between pipeline stages.
#[derive(Clone, Debug)]
pub struct ActivationData {
    pub data: Vec<u8>,
    pub shape: Vec<usize>,
    pub dtype: ActivationDtype,
}

/// The 32-bit little-endian word at byte offset `4 * k`.
pub open spec fn le_word(data: Seq<u8>, k: int) -> u32 {
    (data[4 * k] as int + data[4 * k + 1] as int * 0x100 + data[4 * k + 2] as int * 0x10000
        + data[4 * k + 3] as int * 0x1000000) as u32
}

/// The value of an IEEE-754 single-precision number with bit pattern `bits`
/// converted to `u32` as Rust's `as` does: truncated toward zero, negative
/// values and NaN giving 0, values too large giving `u32::MAX`.
pub open spec fn f32_bits_to_u32(bits: u32) -> u32 {
    let negative = bits >= 0x8000_0000;
    let exp = (bits / 0x80_0000) % 0x100;
    let mant = bits % 0x80_0000;
    if exp == 0xff {
        if mant != 0 || negative {
            0
        } else {
            u32::MAX
        }
    } else if exp < 127 {
        0
    } else if negative {
        0
    } else {
        // value = (2^23 + mant) * 2^(exp - 150)
        let whole = scaled_significand(mant as nat, (exp - 127) as nat);
        if whole > u32::MAX {
            u32::MAX
        } else {
            whole as u32
        }
    }
}

/// floor((2^23 + mant) * 2^shift / 2^23).
pub open spec fn scaled_significand(mant: nat, shift: nat) -> nat {
    (0x80_0000 + mant) * vstd::arithmetic::power2::pow2(shift) / 0x80_0000
}

/// The token ids packed as F32 words, one per complete 4-byte chunk.
pub open spec fn packed_token_ids(data: Seq<u8>) -> Seq<u32> {
    Seq::new(data.len() / 4, |k: int| f32_bits_to_u32(le_word(data, k)))
}

fn f32_word_to_u32(bits: u32) -> (r: u32)
    ensures
        r == f32_bits_to_u32(bits),
{
    let negative = bits >= 0x8000_0000;
    let exp = (bits / 0x80_0000) % 0x100;
    let mant = bits % 0x80_0000;
    if exp == 0xff {
        if mant != 0 || negative {
            0
        } else {
            u32::MAX
        }
    } else if exp < 127 {
        0
    } else if negative {
        0
    } else if exp - 127 >= 32 {
        proof {
            lemma_scaled_large(mant as nat, (exp - 127) as nat);
        }
        u32::MAX
    } else {
        let shift = exp - 127;
        let sig: u64 = 0x80_0000 + mant as u64;
        proof {
            vstd::arithmetic::power2::lemma_pow2_pos(shift as nat);
            lemma_pow2_small(shift as nat);
            assert(sig * vstd::arithmetic::power2::pow2(shift as nat) < 0x1_0000_0000_0000_0000)
                by (nonlinear_arith)
                requires
                    sig < 0x100_0000,
                    vstd::arithmetic::power2::pow2(shift as nat) <= 0x8000_0000,
            ;
        }
        let scaled: u64 = sig * pow2_u64(shift);
        let whole: u64 = scaled / 0x80_0000;
        if whole > u32::MAX as u64 {
            u32::MAX
        } else {
            whole as u32
        }
    }
}

proof fn lemma_pow2_small(n: nat)
    requires
        n < 32,
    ensures
        vstd::arithmetic::power2::pow2(n) <= 0x8000_0000,
{
    vstd::arithmetic::power2::lemma2_to64();
    if n < 31 {
        vstd::arithmetic::power2::lemma_pow2_strictly_increases(n, 31);
    }
}

proof fn lemma_scaled_large(mant: nat, shift: nat)
    requires
        shift >= 32,
    ensures
        scaled_significand(mant, shift) > u32::MAX,
{
    vstd::arithmetic::power2::lemma2_to64();
    let p = vstd::arithmetic::power2::pow2(shift);
    if shift > 32 {
        vstd::arithmetic::power2::lemma_pow2_strictly_increases(32, shift);
    }
    assert(p >= 0x1_0000_0000);
    let a: int = ((0x80_0000 + mant) * p) as int;
    let b: int = (0x80_0000 * p) as int;
    assert(a >= b) by (nonlinear_arith)
        requires
            a == (0x80_0000 + mant) * p,
            b == 0x80_0000 * p,
            p >= 0,
            mant >= 0,
    ;
    vstd::arithmetic::div_mod::lemma_div_is_ordered(b, a, 0x80_0000);
    vstd::arithmetic::div_mod::lemma_div_multiples_vanish(p as int, 0x80_0000);
}

fn pow2_u64(n: u32) -> (r: u64)
    requires
        n < 32,
    ensures
        r == vstd::arithmetic::power2::pow2(n as nat),
    decreases n,
{
    if n == 0 {
        proof {
            vstd::arithmetic::power2::lemma2_to64();
        }
        1
    } else {
        let h = pow2_u64(n - 1);
        proof {
            vstd::arithmetic::power2::lemma_pow2_unfold(n as nat);
            lemma_pow2_small((n - 1) as nat);
        }
        2 * h
    }
}

/// Read token ids out of an activation that packs them as F32 values: one id
/// per complete 4-byte little-endian word, converted as `f32 as u32` does.
/// Only F32 activations can carry token ids.
pub fn tensor_to_u32_ids(act: &ActivationData) -> (r: Result<Vec<u32>, InferenceError>)
    ensures
        act.dtype == ActivationDtype::F32 ==> (r matches Ok(ids) && ids@ == packed_token_ids(
            act.data@,
        )),
        act.dtype != ActivationDtype::F32 ==> (r matches Err(InferenceError::GenerationError(m))
            && m@ == "Token IDs must be F32-encoded"@),
{
    match act.dtype {
        ActivationDtype::F32 => {
            let len = act.data.len();
            let n = len / 4;
            proof {
                assert(4 * n <= act.data@.len());
            }
            let mut ids: Vec<u32> = Vec::new();
            let mut k: usize = 0;
            while k < n
                invariant
                    k <= n,
                    n == act.data@.len() / 4,
                    4 * n <= act.data@.len(),
                    len == act.data@.len(),
                    ids@ == packed_token_ids(act.data@).take(k as int),
                decreases n - k,
            {
                proof {
                    assert(4 * k + 3 < act.data@.len()) by (nonlinear_arith)
                        requires
                            k < n,
                            n == act.data@.len() / 4,
                    ;
                }
                let b0 = act.data[4 * k] as u32;
                let b1 = act.data[4 * k + 1] as u32;
                let b2 = act.data[4 * k + 2] as u32;
                let b3 = act.data[4 * k + 3] as u32;
                let word = b0 + b1 * 0x100 + b2 * 0x10000 + b3 * 0x1000000;
                ids.push(f32_word_to_u32(word));
                proof {
                    assert(packed_token_ids(act.data@).take(k + 1) =~= packed_token_ids(
                        act.data@,
                    ).take(k as int).push(f32_bits_to_u32(le_word(act.data@, k as int))));
                }
                k = k + 1;
            }
            proof {
                assert(packed_token_ids(act.data@).take(n as int) =~= packed_token_ids(
                    act.data@,
                ));
            }
            Ok(ids)
        },
        _ => Err(InferenceError::GenerationError("Token IDs must be F32-encoded".to_owned())),
    }
}


/// The `content` of a serialized chat message, as the decoder sees it.
#[derive(Clone, Debug)]
pub enum RawContent {
    /// No `content` field, or `null`: an absent value.
    Missing,
    /// A JSON string.
    Text(String),
    /// A JSON object: its JSON text, its `content` and `tool_call_id`
    /// members when they are strings, and whether it has `tool_calls`.
    Object { json: String, content: Option<String>, tool_call_id: Option<String>, has_tool_calls: bool },
    /// Any other JSON value, with its JSON text.
    Other { json: String },
}

/// The text of a system message: a string as is, an absent or `null`
/// content as empty, any other value as its JSON text.
pub open spec fn system_text(c: RawContent) -> Seq<char> {
    match c {
        RawContent::Missing => Seq::empty(),
        RawContent::Text(s) => s@,
        RawContent::Object { json, .. } => json@,
        RawContent::Other { json } => json@,
    }
}

/// Decode a serialized chat message from its `role` and `content`. The
/// content of a user message and the `tool_calls` of an assistant object
/// are decoded by the caller and passed in; they are used only where the
/// role calls for them.
pub fn chat_message_from_raw(
    role: &str,
    content: RawContent,
    user_parts: Result<Vec<ContentPart>, String>,
    tool_calls: Result<Vec<ToolCallResponse>, String>,
) -> (r: Result<ChatMessage, String>)
    ensures
        role@ == "system"@ ==> (r matches Ok(ChatMessage::System(t)) && t@ == system_text(content)),
        role@ == "user"@ ==> match content {
            RawContent::Missing => r matches Ok(ChatMessage::User(p)) && p@.len() == 0,
            _ => match user_parts {
                Ok(p) => r matches Ok(ChatMessage::User(q)) && q == p,
                Err(e) => r == Err::<ChatMessage, String>(e),
            },
        },
        role@ == "assistant"@ ==> match content {
            RawContent::Text(s) => r matches Ok(ChatMessage::Assistant { content: Some(c), tool_calls: t })
                && c@ == s@ && t@.len() == 0,
            RawContent::Object { content: c, has_tool_calls, .. } => if has_tool_calls {
                match tool_calls {
                    Ok(tc) => r matches Ok(ChatMessage::Assistant { content: c2, tool_calls: t })
                        && c2 == c && t == tc,
                    Err(e) => r == Err::<ChatMessage, String>(e),
                }
            } else {
                r matches Ok(ChatMessage::Assistant { content: c2, tool_calls: t }) && c2 == c
                    && t@.len() == 0
            },
            RawContent::Missing => r matches Ok(
                ChatMessage::Assistant { content: None, tool_calls: t },
            ) && t@.len() == 0,
            RawContent::Other { .. } => r matches Err(e) && e@ == "invalid assistant content"@,
        },
        role@ == "tool"@ ==> match content {
            RawContent::Object { tool_call_id: Some(id), content: c, .. } => r matches Ok(
                ChatMessage::ToolResult { tool_call_id: i, content: t },
            ) && i@ == id@ && t@ == match c {
                Some(v) => v@,
                None => Seq::<char>::empty(),
            },
            RawContent::Object { tool_call_id: None, .. } => r matches Err(e) && e@
                == "missing tool_call_id"@,
            _ => r matches Err(e) && e@ == "expected object for tool content"@,
        },
        role@ != "system"@ && role@ != "user"@ && role@ != "assistant"@ && role@ != "tool"@ ==> (
        r matches Err(e) && e@ == "unknown role: "@ + role@),
{
    proof {
        reveal_strlit("system");
        reveal_strlit("user");
        reveal_strlit("assistant");
        reveal_strlit("tool");
        assert("system"@.len() == 6 && "user"@.len() == 4 && "assistant"@.len() == 9 && "tool"@.len() == 4);
        assert("user"@[0] != "tool"@[0]);
    }
    if str_eq(role, "system") {
        let text = match content {
            RawContent::Missing => String::new(),
            RawContent::Text(s) => s,
            RawContent::Object { json, .. } => json,
            RawContent::Other { json } => json,
        };
        return Ok(ChatMessage::System(text));
    }
    if str_eq(role, "user") {
        return match content {
            RawContent::Missing => Ok(ChatMessage::User(Vec::new())),
            _ => match user_parts {
                Ok(p) => Ok(ChatMessage::User(p)),
                Err(e) => Err(e),
            },
        };
    }
    if str_eq(role, "assistant") {
        return match content {
            RawContent::Text(s) => Ok(ChatMessage::Assistant { content: Some(s), tool_calls: Vec::new() }),
            RawContent::Object { content: c, has_tool_calls, .. } => {
                if has_tool_calls {
                    match tool_calls {
                        Ok(tc) => Ok(ChatMessage::Assistant { content: c, tool_calls: tc }),
                        Err(e) => Err(e),
                    }
                } else {
                    Ok(ChatMessage::Assistant { content: c, tool_calls: Vec::new() })
                }
            },
            RawContent::Missing => Ok(
                ChatMessage::Assistant { content: None, tool_calls: Vec::new() },
            ),
            RawContent::Other { .. } => Err("invalid assistant content".to_owned()),
        };
    }
    if str_eq(role, "tool") {
        return match content {
            RawContent::Object { tool_call_id: Some(id), content: c, .. } => Ok(
                ChatMessage::ToolResult {
                    tool_call_id: id,
                    content: match c {
                        Some(v) => v,
                        None => String::new(),
                    },
                },
            ),
            RawContent::Object { tool_call_id: None, .. } => Err("missing tool_call_id".to_owned()),
            _ => Err("expected object for tool content".to_owned()),
        };
    }
    let mut m = "unknown role: ".to_owned();
    m.append(role);
    Err(m)
}

} // verus!
