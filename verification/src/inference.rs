//! Integer and text logic of local inference: half-precision bit patterns,
//! little-endian activation words, stop sequences, end-of-sequence token
//! lookup order and the checks made before a model is loaded.
use vstd::prelude::*;

use crate::text::{ends_with, ends_with_chars, chars_of, slice_range, string_of, str_eq};
use crate::types::{InferenceError, PipelineStageConfig};

verus! {

broadcast use vstd::string::group_string_axioms;

/// How many times a nonzero 10-bit mantissa must be doubled to reach the
/// implicit-bit position (bit 10).
pub open spec fn norm_shift(m: nat) -> nat
    decreases (if m < 0x400 {
        0x400 - m
    } else {
        0
    }),
    when 0 < m
{
    if m >= 0x400 {
        0
    } else {
        1 + norm_shift(2 * m)
    }
}

/// The single-precision bit pattern of the half-precision number with bit
/// pattern `bits` (IEEE 754): zeros, subnormals (renormalized), infinities
/// and NaNs (payload kept) and normal numbers.
pub open spec fn f16_to_f32_bits_spec(bits: u16) -> u32 {
    let sign: int = (bits / 0x8000) as int;
    let exp: int = ((bits / 0x400) % 32) as int;
    let mant: int = (bits % 0x400) as int;
    (if exp == 0 {
        if mant == 0 {
            sign * 0x8000_0000
        } else {
            let s = norm_shift(mant as nat);
            sign * 0x8000_0000 + (113 - s) * 0x80_0000 + ((mant * vstd::arithmetic::power2::pow2(
                s,
            )) % 0x400) * 0x2000
        }
    } else if exp == 31 {
        sign * 0x8000_0000 + 0xff * 0x80_0000 + mant * 0x2000
    } else {
        sign * 0x8000_0000 + (exp + 112) * 0x80_0000 + mant * 0x2000
    }) as u32
}

proof fn lemma_norm_shift_product(m: nat)
    requires
        0 < m < 0x400,
    ensures
        0x400 <= m * vstd::arithmetic::power2::pow2(norm_shift(m)) < 0x800,
        norm_shift(m) >= 1,
    decreases 0x400 - m,
{
    vstd::arithmetic::power2::lemma2_to64();
    if 2 * m >= 0x400 {
        assert(norm_shift(2 * m) == 0);
        assert(norm_shift(m) == 1);
    } else {
        lemma_norm_shift_product(2 * m);
        let s = norm_shift(2 * m);
        vstd::arithmetic::power2::lemma_pow2_unfold(s + 1);
        assert(m * vstd::arithmetic::power2::pow2(s + 1) == 2 * m * vstd::arithmetic::power2::pow2(s))
            by (nonlinear_arith)
            requires
                vstd::arithmetic::power2::pow2(s + 1) == 2 * vstd::arithmetic::power2::pow2(s),
        ;
    }
}

proof fn lemma_norm_shift_bounds(m: nat)
    requires
        0 < m < 0x400,
    ensures
        1 <= norm_shift(m) <= 10,
        0x400 <= m * vstd::arithmetic::power2::pow2(norm_shift(m)) < 0x800,
{
    lemma_norm_shift_product(m);
    let s = norm_shift(m);
    vstd::arithmetic::power2::lemma2_to64();
    assert(vstd::arithmetic::power2::pow2(s) <= m * vstd::arithmetic::power2::pow2(s))
        by (nonlinear_arith)
        requires
            m >= 1,
    ;
    if s > 10 {
        vstd::arithmetic::power2::lemma_pow2_strictly_increases(11, s);
    }
}

/// Convert a half-precision bit pattern to the single-precision bit
/// pattern of the same number.
pub fn f16_to_f32_bits(bits: u16) -> (r: u32)
    ensures
        r == f16_to_f32_bits_spec(bits),
{
    let sign: u32 = (bits / 0x8000) as u32;
    let exp: u32 = ((bits / 0x400) % 32) as u32;
    let mant: u32 = (bits % 0x400) as u32;
    if exp == 0 {
        if mant == 0 {
            sign * 0x8000_0000
        } else {
            let mut m: u32 = mant;
            let mut e: u32 = 0;
            proof {
                lemma_norm_shift_bounds(mant as nat);
                vstd::arithmetic::power2::lemma2_to64();
            }
            while m < 0x400
                invariant
                    0 < mant < 0x400,
                    e <= 10,
                    m == mant * vstd::arithmetic::power2::pow2(e as nat),
                    norm_shift(mant as nat) == e + norm_shift(m as nat),
                    1 <= norm_shift(mant as nat) <= 10,
                    0 < m < 0x800,
                decreases 0x800 - m,
            {
                proof {
                    vstd::arithmetic::power2::lemma_pow2_unfold((e + 1) as nat);
                    assert(mant * vstd::arithmetic::power2::pow2((e + 1) as nat) == 2 * (mant
                        * vstd::arithmetic::power2::pow2(e as nat))) by (nonlinear_arith)
                        requires
                            vstd::arithmetic::power2::pow2((e + 1) as nat) == 2
                                * vstd::arithmetic::power2::pow2(e as nat),
                    ;
                }
                m = m * 2;
                e = e + 1;
            }
            (sign * 0x8000_0000) + ((113 - e) * 0x80_0000) + ((m % 0x400) * 0x2000)
        }
    } else if exp == 31 {
        (sign * 0x8000_0000) + (0xff * 0x80_0000) + (mant * 0x2000)
    } else {
        (sign * 0x8000_0000) + ((exp + 112) * 0x80_0000) + (mant * 0x2000)
    }
}

/// A finite half-precision number (exponent field not all ones).
pub open spec fn f16_is_finite(bits: u16) -> bool {
    (bits / 0x400) % 32 != 31
}

/// The magnitude of a finite half-precision number times 2^149.
pub open spec fn f16_scaled_magnitude(bits: u16) -> int {
    let exp = ((bits / 0x400) % 32) as nat;
    let mant = (bits % 0x400) as int;
    if exp == 0 {
        mant * vstd::arithmetic::power2::pow2(125)
    } else {
        (1024 + mant) * vstd::arithmetic::power2::pow2(exp + 124)
    }
}

/// The magnitude of a finite single-precision number times 2^149.
pub open spec fn f32_scaled_magnitude(bits: u32) -> int {
    let exp = ((bits / 0x80_0000) % 256) as nat;
    let mant = (bits % 0x80_0000) as int;
    if exp == 0 {
        mant
    } else {
        (0x80_0000 + mant) * vstd::arithmetic::power2::pow2((exp - 1) as nat)
    }
}

proof fn lemma_f32_fields(sign: int, e: int, m: int)
    requires
        0 <= sign < 2,
        0 <= e < 256,
        0 <= m < 0x80_0000,
    ensures
        (sign * 0x8000_0000 + e * 0x80_0000 + m) / 0x8000_0000 == sign,
        ((sign * 0x8000_0000 + e * 0x80_0000 + m) / 0x80_0000) % 256 == e,
        (sign * 0x8000_0000 + e * 0x80_0000 + m) % 0x80_0000 == m,
{
    let x = sign * 0x8000_0000 + e * 0x80_0000 + m;
    assert(x / 0x80_0000 == sign * 256 + e) by (nonlinear_arith)
        requires
            x == sign * 0x8000_0000 + e * 0x80_0000 + m,
            0 <= m < 0x80_0000,
    ;
    assert(x % 0x80_0000 == m) by (nonlinear_arith)
        requires
            x == sign * 0x8000_0000 + e * 0x80_0000 + m,
            0 <= m < 0x80_0000,
            0 <= e,
            0 <= sign,
    ;
    assert((sign * 256 + e) % 256 == e) by (nonlinear_arith)
        requires
            0 <= e < 256,
            0 <= sign,
    ;
    assert(x / 0x8000_0000 == sign) by (nonlinear_arith)
        requires
            x == sign * 0x8000_0000 + e * 0x80_0000 + m,
            0 <= m < 0x80_0000,
            0 <= e < 256,
    ;
}

/// Widening a finite half-precision number is exact: the single-precision
/// result has the same sign and the same magnitude.
pub proof fn f16_widening_is_exact(bits: u16)
    requires
        f16_is_finite(bits),
    ensures
        f16_to_f32_bits_spec(bits) / 0x8000_0000 == bits / 0x8000,
        f32_scaled_magnitude(f16_to_f32_bits_spec(bits)) == f16_scaled_magnitude(bits),
{
    let sign: int = (bits / 0x8000) as int;
    let exp: int = ((bits / 0x400) % 32) as int;
    let mant: int = (bits % 0x400) as int;
    assert(0 <= sign < 2);
    vstd::arithmetic::power2::lemma2_to64();
    if exp == 0 {
        if mant == 0 {
            lemma_f32_fields(sign, 0, 0);
            assert(f16_to_f32_bits_spec(bits) as int == sign * 0x8000_0000);
            assert(f32_scaled_magnitude(f16_to_f32_bits_spec(bits)) == 0);
            assert(f16_scaled_magnitude(bits) == 0);
        } else {
            lemma_norm_shift_bounds(mant as nat);
            let sh = norm_shift(mant as nat);
            let m2 = mant * vstd::arithmetic::power2::pow2(sh);
            let low = m2 % 0x400;
            assert(low == m2 - 0x400);
            lemma_f32_fields(sign, 113 - sh, low * 0x2000);
            let r = f16_to_f32_bits_spec(bits);
            assert(r as int == sign * 0x8000_0000 + (113 - sh) * 0x80_0000 + low * 0x2000);
            let p = vstd::arithmetic::power2::pow2((112 - sh) as nat);
            vstd::arithmetic::power2::lemma_pow2_adds((112 - sh) as nat, 13);
            vstd::arithmetic::power2::lemma_pow2_adds(sh, (125 - sh) as nat);
            let q = vstd::arithmetic::power2::pow2((125 - sh) as nat);
            assert(vstd::arithmetic::power2::pow2(13) == 0x2000);
            assert((0x80_0000 + low * 0x2000) * p == mant * vstd::arithmetic::power2::pow2(125))
                by (nonlinear_arith)
                requires
                    low == m2 - 0x400,
                    m2 == mant * vstd::arithmetic::power2::pow2(sh),
                    q == p * 0x2000,
                    vstd::arithmetic::power2::pow2(125) == vstd::arithmetic::power2::pow2(sh) * q,
            ;
            assert((r / 0x80_0000) % 256 == 113 - sh);
            assert(r % 0x80_0000 == low * 0x2000);
            assert(f32_scaled_magnitude(r) == (0x80_0000 + low * 0x2000) * p);
            assert(f32_scaled_magnitude(r) == f16_scaled_magnitude(bits));
        }
    } else {
        lemma_f32_fields(sign, exp + 112, mant * 0x2000);
        let r = f16_to_f32_bits_spec(bits);
        assert(r as int == sign * 0x8000_0000 + (exp + 112) * 0x80_0000 + mant * 0x2000);
        assert((r / 0x80_0000) % 256 == exp + 112);
        assert(r % 0x80_0000 == mant * 0x2000);
        let p = vstd::arithmetic::power2::pow2((exp + 111) as nat);
        vstd::arithmetic::power2::lemma_pow2_adds((exp + 111) as nat, 13);
        assert(vstd::arithmetic::power2::pow2(13) == 0x2000);
        assert((0x80_0000 + mant * 0x2000) * p == (1024 + mant) * vstd::arithmetic::power2::pow2(
            (exp + 124) as nat,
        )) by (nonlinear_arith)
            requires
                vstd::arithmetic::power2::pow2((exp + 124) as nat) == p * 0x2000,
        ;
        assert(f32_scaled_magnitude(r) == (0x80_0000 + mant * 0x2000) * p);
        assert(f16_scaled_magnitude(bits) == (1024 + mant) * vstd::arithmetic::power2::pow2(
            (exp + 124) as nat));
    }
}

/// The single-precision bit pattern of a bfloat16 bit pattern: the same
/// bits in the upper half.
pub fn bf16_to_f32_bits(bits: u16) -> (r: u32)
    ensures
        r == bits as nat * 0x10000,
{
    (bits as u32) * 0x10000
}

/// The 16-bit little-endian word at byte offset `2 * k`.
pub open spec fn le_half(data: Seq<u8>, k: int) -> u16 {
    (data[2 * k] as int + data[2 * k + 1] as int * 0x100) as u16
}

/// The data read as 16-bit little-endian words; a trailing odd byte is
/// ignored.
pub fn le_halves(data: &[u8]) -> (r: Vec<u16>)
    ensures
        r@.len() == data@.len() / 2,
        forall|k: int| 0 <= k < r@.len() ==> #[trigger] r@[k] == le_half(data@, k),
{
    let len = data.len();
    let n = len / 2;
    let mut r: Vec<u16> = Vec::new();
    let mut k: usize = 0;
    while k < n
        invariant
            len == data@.len(),
            n == data@.len() / 2,
            k <= n,
            r@.len() == k,
            forall|j: int| 0 <= j < k ==> #[trigger] r@[j] == le_half(data@, j),
        decreases n - k,
    {
        assert(2 * k + 1 < data@.len());
        let w: u16 = data[2 * k] as u16 + (data[2 * k + 1] as u16) * 0x100;
        r.push(w);
        k = k + 1;
    }
    r
}

/// The first stop sequence, in the order given, that `output` ends with.
pub open spec fn first_stop(output: Seq<char>, stops: Seq<Seq<char>>) -> Option<int>
    decreases stops.len(),
{
    if stops.len() == 0 {
        None
    } else if ends_with(output, stops[0]) {
        Some(0)
    } else {
        match first_stop(output, stops.drop_first()) {
            Some(i) => Some(i + 1),
            None => None,
        }
    }
}

proof fn lemma_first_stop(output: Seq<char>, stops: Seq<Seq<char>>)
    ensures
        match first_stop(output, stops) {
            Some(i) => 0 <= i < stops.len() && ends_with(output, stops[i]) && forall|j: int|
                0 <= j < i ==> !ends_with(output, #[trigger] stops[j]),
            None => forall|j: int| 0 <= j < stops.len() ==> !ends_with(output, #[trigger] stops[j]),
        },
    decreases stops.len(),
{
    if stops.len() > 0 {
        lemma_first_stop(output, stops.drop_first());
        assert forall|j: int| 1 <= j < stops.len() implies stops[j] == stops.drop_first()[j - 1] by {}
    }
}

/// The generated text once a stop sequence is hit: the text without the
/// first stop sequence (in the order given) it ends with; `None` while no
/// stop sequence has been hit.
pub fn cut_at_stop(output: &str, stops: &Vec<String>) -> (r: Option<String>)
    ensures
        match first_stop(output@, stops@.map_values(|s: String| s@)) {
            Some(i) => r matches Some(t) && t@ == output@.take(output@.len() - stops@[i]@.len()),
            None => r is None,
        },
{
    let out = chars_of(output);
    let ghost sv = stops@.map_values(|s: String| s@);
    proof {
        lemma_first_stop(output@, sv);
    }
    let mut i: usize = 0;
    while i < stops.len()
        invariant
            i <= stops@.len(),
            out@ == output@,
            sv == stops@.map_values(|s: String| s@),
            forall|j: int| 0 <= j < i ==> !ends_with(output@, #[trigger] sv[j]),
            match first_stop(output@, sv) {
                Some(k) => 0 <= k < sv.len() && ends_with(output@, sv[k]) && forall|j: int|
                    0 <= j < k ==> !ends_with(output@, #[trigger] sv[j]),
                None => forall|j: int| 0 <= j < sv.len() ==> !ends_with(output@, #[trigger] sv[j]),
            },
        decreases stops@.len() - i,
    {
        let sc = chars_of(stops[i].as_str());
        if ends_with_chars(&out, &sc) {
            let keep = out.len() - sc.len();
            let t = slice_range(&out, 0, keep);
            proof {
                assert(sv[i as int] == stops@[i as int]@);
                assert(first_stop(output@, sv) == Some(i as int));
                assert(t@ =~= output@.take(output@.len() - stops@[i as int]@.len()));
            }
            return Some(string_of(&t));
        }
        i = i + 1;
    }
    None
}

/// Whether streamed text has hit a stop sequence (streaming stops without
/// trimming it).
pub fn hits_stop(accumulated: &str, stops: &Vec<String>) -> (r: bool)
    ensures
        r == exists|j: int| 0 <= j < stops@.len() && ends_with(accumulated@, #[trigger] stops@[j]@),
{
    let out = chars_of(accumulated);
    let mut i: usize = 0;
    while i < stops.len()
        invariant
            i <= stops@.len(),
            out@ == accumulated@,
            forall|j: int| 0 <= j < i ==> !ends_with(accumulated@, #[trigger] stops@[j]@),
        decreases stops@.len() - i,
    {
        let sc = chars_of(stops[i].as_str());
        if ends_with_chars(&out, &sc) {
            return true;
        }
        i = i + 1;
    }
    false
}

/// Chat template families, which differ in their end-of-turn token.
#[derive(Clone, Copy, Debug, PartialEq, Eq)]
pub enum TemplateFormat {
    Llama3,
    ChatML,
    Gemma,
    Phi3,
    Mistral,
    Generic,
}

/// The end-of-turn token of a template family.
pub open spec fn primary_eos(f: TemplateFormat) -> Seq<char> {
    match f {
        TemplateFormat::Llama3 => "<|eot_id|>"@,
        TemplateFormat::ChatML => "<|im_end|>"@,
        TemplateFormat::Gemma => "<end_of_turn>"@,
        TemplateFormat::Phi3 => "<|end|>"@,
        TemplateFormat::Mistral => "</s>"@,
        TemplateFormat::Generic => "</s>"@,
    }
}

/// The tokens tried, in order, to find the end-of-sequence id: the
/// family's own, then the common spellings.
pub open spec fn eos_order(f: TemplateFormat) -> Seq<Seq<char>> {
    seq![
        primary_eos(f),
        "</s>"@,
        "<|endoftext|>"@,
        "<|eot_id|>"@,
        "<|im_end|>"@,
        "<|end|>"@,
        "<end_of_turn>"@,
    ]
}

/// The tokens to look up for the end-of-sequence id, in order.
pub fn eos_candidates(f: TemplateFormat) -> (r: Vec<String>)
    ensures
        r@.map_values(|s: String| s@) == eos_order(f),
{
    let primary = match f {
        TemplateFormat::Llama3 => "<|eot_id|>",
        TemplateFormat::ChatML => "<|im_end|>",
        TemplateFormat::Gemma => "<end_of_turn>",
        TemplateFormat::Phi3 => "<|end|>",
        TemplateFormat::Mistral => "</s>",
        TemplateFormat::Generic => "</s>",
    };
    let mut r: Vec<String> = Vec::new();
    r.push(primary.to_owned());
    r.push("</s>".to_owned());
    r.push("<|endoftext|>".to_owned());
    r.push("<|eot_id|>".to_owned());
    r.push("<|im_end|>".to_owned());
    r.push("<|end|>".to_owned());
    r.push("<end_of_turn>".to_owned());
    proof {
        assert(r@.map_values(|s: String| s@) =~= eos_order(f));
    }
    r
}

/// The first id found among the lookups, in order; `u32::MAX` (a token no
/// model produces) when none was found.
pub open spec fn first_found(found: Seq<Option<u32>>) -> u32
    decreases found.len(),
{
    if found.len() == 0 {
        u32::MAX
    } else {
        match found[0] {
            Some(id) => id,
            None => first_found(found.drop_first()),
        }
    }
}

/// The end-of-sequence id from the lookups of `eos_candidates`, in order.
pub fn eos_token(found: &[Option<u32>]) -> (r: u32)
    ensures
        r == first_found(found@),
{
    let mut i: usize = 0;
    assert(found@.skip(0) =~= found@);
    while i < found.len()
        invariant
            i <= found@.len(),
            first_found(found@) == first_found(found@.skip(i as int)),
        decreases found@.len() - i,
    {
        proof {
            assert(found@.skip(i as int).drop_first() =~= found@.skip(i + 1));
        }
        if let Some(id) = found[i] {
            return id;
        }
        i = i + 1;
    }
    proof {
        assert(found@.skip(i as int).len() == 0);
    }
    u32::MAX
}

/// The model formats that the Candle backend loads, by file extension.
pub open spec fn supported_extension(extension: Seq<char>) -> bool {
    extension == "gguf"@ || extension == "safetensors"@
}

/// The checks before a model file is read: it must exist and be a GGUF or a
/// SafeTensors file.
pub fn check_model_file(exists: bool, path: &str, extension: &str) -> (r: Result<(), InferenceError>)
    ensures
        !exists ==> (r matches Err(InferenceError::ModelNotFound(p)) && p@ == path@),
        exists && !supported_extension(extension@) ==> (r matches Err(
            InferenceError::UnsupportedFormat(m),
        ) && m@ == "Candle backend supports GGUF and SafeTensors files only, got: ."@
            + extension@),
        exists && supported_extension(extension@) ==> r is Ok,
{
    if !exists {
        return Err(InferenceError::ModelNotFound(path.to_owned()));
    }
    if !str_eq(extension, "gguf") && !str_eq(extension, "safetensors") {
        let mut m = "Candle backend supports GGUF and SafeTensors files only, got: .".to_owned();
        m.append(extension);
        return Err(InferenceError::UnsupportedFormat(m));
    }
    Ok(())
}

/// The error when no tokenizer lies beside the model file.
pub fn missing_tokenizer(model_dir: &str) -> (r: InferenceError)
    ensures
        r matches InferenceError::LoadError(m) && m@ == "tokenizer.json not found in "@ + model_dir@
            + ". Place the HuggingFace tokenizer.json alongside the GGUF file."@,
{
    let mut m = "tokenizer.json not found in ".to_owned();
    m.append(model_dir);
    m.append(". Place the HuggingFace tokenizer.json alongside the GGUF file.");
    InferenceError::LoadError(m)
}

/// A pipeline stage embeds its input first when it is the first stage and
/// the input is a column of token ids (shape `[n, 1]`).
pub fn embeds_token_ids(stage: &PipelineStageConfig, shape: &[usize]) -> (r: bool)
    ensures
        r == (stage.layer_range.start == 0 && shape@.len() == 2 && shape@[1] == 1),
{
    stage.is_first_stage() && shape.len() == 2 && shape[1] == 1
}


/// One step of the xorshift64 generator (shifts 13, 7, 17).
pub open spec fn xorshift64_spec(x: u64) -> u64 {
    let a = x ^ (x << 13u64);
    let b = a ^ (a >> 7u64);
    b ^ (b << 17u64)
}

/// Advance the sampler's xorshift64 state.
pub fn xorshift64(x: u64) -> (r: u64)
    ensures
        r == xorshift64_spec(x),
{
    let a = x ^ (x << 13u64);
    let b = a ^ (a >> 7u64);
    b ^ (b << 17u64)
}

/// The generator never falls into the all-zero state from a nonzero one,
/// so the sampler's random stream does not degenerate.
pub proof fn xorshift_never_reaches_zero(x: u64)
    requires
        x != 0,
    ensures
        xorshift64_spec(x) != 0,
{
    let a = x ^ (x << 13u64);
    assert(x != 0 ==> (x ^ (x << 13u64)) != 0) by (bit_vector);
    assert(a != 0 ==> (a ^ (a >> 7u64)) != 0) by (bit_vector);
    let b = a ^ (a >> 7u64);
    assert(b != 0 ==> (b ^ (b << 17u64)) != 0) by (bit_vector);
}

/// A generation in progress: the text so far, the number of tokens fed
/// back to the model, and whether generation has ended (end-of-sequence
/// token, stop sequence, or the token budget spent).
pub struct GenerationRun {
    output: String,
    step: u32,
    max_tokens: u32,
    prompt_len: usize,
    eos: u32,
    stops: Vec<String>,
    finished: bool,
}

/// What to do after a sampled token.
#[derive(Clone, Copy, Debug, PartialEq, Eq)]
pub enum GenerationStep {
    /// Generation is over.
    Finished,
    /// Feed the token to the model at this position and sample the next one.
    Forward { position: usize },
}

/// What to do after a sampled token when streaming.
#[derive(Clone, Debug)]
pub enum StreamStep {
    /// Generation is over; nothing more is sent.
    Finished,
    /// Send this piece, then feed the token to the model at this position.
    Emit { piece: String, position: usize },
}

impl GenerationRun {
    /// The text generated so far.
    pub closed spec fn text(&self) -> Seq<char> {
        self.output@
    }

    /// Tokens fed back so far.
    pub closed spec fn steps(&self) -> nat {
        self.step as nat
    }

    /// Whether generation has ended.
    pub closed spec fn is_over(&self) -> bool {
        self.finished
    }

    /// The settings the run was started with.
    pub closed spec fn settings(&self) -> (nat, nat, u32, Seq<Seq<char>>) {
        (self.max_tokens as nat, self.prompt_len as nat, self.eos, self.stops@.map_values(|s: String| s@))
    }

    /// The run's invariant: positions stay addressable and the step count
    /// stays within the budget.
    pub closed spec fn wf(&self) -> bool {
        &&& self.prompt_len + self.max_tokens <= usize::MAX
        &&& self.step <= self.max_tokens
        &&& (!self.finished ==> self.step < self.max_tokens)
    }

    /// Start generating after a prompt of `prompt_len` tokens, with at most
    /// `max_tokens` tokens, ending at `eos` or at any of `stops`.
    pub fn new(max_tokens: u32, prompt_len: usize, eos: u32, stops: Vec<String>) -> (r: GenerationRun)
        requires
            prompt_len + max_tokens <= usize::MAX,
        ensures
            r.wf(),
            r.text().len() == 0,
            r.steps() == 0,
            r.is_over() == (max_tokens == 0),
            r.settings() == (max_tokens as nat, prompt_len as nat, eos, stops@.map_values(|s: String| s@)),
    {
        GenerationRun {
            output: String::new(),
            step: 0,
            max_tokens,
            prompt_len,
            eos,
            stops,
            finished: max_tokens == 0,
        }
    }

    /// Whether generation has ended.
    pub fn finished(&self) -> (r: bool)
        ensures
            r == self.is_over(),
    {
        self.finished
    }

    /// The text generated.
    pub fn output(&self) -> (r: String)
        ensures
            r@ == self.text(),
    {
        self.output.clone()
    }

    /// A sampled token and its decoded text (if it decoded): the
    /// end-of-sequence token ends generation; otherwise the text is
    /// appended, and a stop sequence it completes is cut off and ends
    /// generation; otherwise the token is fed back at the next position.
    pub fn on_token(&mut self, token: u32, piece: Option<&str>) -> (r: GenerationStep)
        requires
            old(self).wf(),
            !old(self).is_over(),
        ensures
            final(self).wf(),
            final(self).settings() == old(self).settings(),
            ({
                let (max, plen, eos, stops) = old(self).settings();
                let grown = old(self).text() + match piece {
                    Some(p) => p@,
                    None => Seq::<char>::empty(),
                };
                if token == eos {
                    &&& r == GenerationStep::Finished
                    &&& final(self).is_over()
                    &&& final(self).text() == old(self).text()
                } else {
                    match first_stop(grown, stops) {
                        Some(i) => {
                            &&& r == GenerationStep::Finished
                            &&& final(self).is_over()
                            &&& final(self).text() == grown.take(grown.len() - stops[i].len())
                        },
                        None => {
                            &&& r == (GenerationStep::Forward {
                                position: (plen + old(self).steps()) as usize,
                            })
                            &&& final(self).text() == grown
                            &&& final(self).steps() == old(self).steps() + 1
                            &&& final(self).is_over() == (old(self).steps() + 1 >= max)
                        },
                    }
                }
            }),
    {
        if token == self.eos {
            self.finished = true;
            return GenerationStep::Finished;
        }
        if let Some(p) = piece {
            self.output.append(p);
        }
        let ghost sv = self.stops@.map_values(|s: String| s@);
        let ghost grown = self.output@;
        match cut_at_stop(self.output.as_str(), &self.stops) {
            Some(t) => {
                proof {
                    let i = first_stop(grown, sv)->0;
                    lemma_first_stop(grown, sv);
                    assert(sv[i] == self.stops@[i]@);
                }
                self.output = t;
                self.finished = true;
                GenerationStep::Finished
            },
            None => {
                let position = self.prompt_len + self.step as usize;
                self.step = self.step + 1;
                self.finished = self.step >= self.max_tokens;
                GenerationStep::Forward { position }
            },
        }
    }

    /// Streaming: the end-of-sequence token ends generation; otherwise the
    /// piece is added to the text, and a stop sequence it completes ends
    /// generation without sending it; otherwise the piece is sent and the
    /// token fed back at the next position.
    pub fn on_stream_token(&mut self, token: u32, piece: &str) -> (r: StreamStep)
        requires
            old(self).wf(),
            !old(self).is_over(),
        ensures
            final(self).wf(),
            final(self).settings() == old(self).settings(),
            ({
                let (max, plen, eos, stops) = old(self).settings();
                let grown = old(self).text() + piece@;
                if token == eos {
                    &&& r is Finished
                    &&& final(self).is_over()
                    &&& final(self).text() == old(self).text()
                } else if exists|j: int| 0 <= j < stops.len() && ends_with(grown, #[trigger] stops[j]) {
                    &&& r is Finished
                    &&& final(self).is_over()
                    &&& final(self).text() == grown
                } else {
                    &&& r matches StreamStep::Emit { piece: p, position } && p@ == piece@ && position
                        == plen + old(self).steps()
                    &&& final(self).text() == grown
                    &&& final(self).steps() == old(self).steps() + 1
                    &&& final(self).is_over() == (old(self).steps() + 1 >= max)
                }
            }),
    {
        if token == self.eos {
            self.finished = true;
            return StreamStep::Finished;
        }
        self.output.append(piece);
        let stop = hits_stop(self.output.as_str(), &self.stops);
        proof {
            let stops = self.stops@.map_values(|s: String| s@);
            let grown = self.output@;
            if stop {
                let j = choose|j: int| 0 <= j < self.stops@.len() && ends_with(grown, #[trigger] self.stops@[j]@);
                assert(stops[j] == self.stops@[j]@);
                assert(ends_with(grown, stops[j]));
                assert(old(self).settings().3 == stops);
                assert(exists|k: int| 0 <= k < stops.len() && ends_with(grown, #[trigger] stops[k]));
            } else {
                assert forall|j: int| 0 <= j < stops.len() implies !ends_with(grown, #[trigger] stops[j]) by {
                    assert(stops[j] == self.stops@[j]@);
                }
            }
        }
        if stop {
            self.finished = true;
            return StreamStep::Finished;
        }
        let position = self.prompt_len + self.step as usize;
        self.step = self.step + 1;
        self.finished = self.step >= self.max_tokens;
        StreamStep::Emit { piece: piece.to_owned(), position }
    }
}

/// A run never takes more tokens than its budget, whatever the model
/// samples: each step that continues counts one token, and the run ends
/// when the count reaches the budget.
pub proof fn generation_respects_budget(run: GenerationRun)
    requires
        run.wf(),
    ensures
        run.steps() <= run.settings().0,
        !run.is_over() ==> run.steps() < run.settings().0,
{
}

} // verus!
