use hivebear::inference::{GenerationRun, GenerationStep, StreamStep};
use hivebear::inference::{
    bf16_to_f32_bits, check_model_file, cut_at_stop, embeds_token_ids, eos_candidates, eos_token,
    f16_to_f32_bits, hits_stop, le_halves, missing_tokenizer, TemplateFormat,
};
use hivebear::types::{InferenceError, PipelineStageConfig};

#[test]
fn half_precision_widens_exactly() {
    for bits in [0x0000u16, 0x8000, 0x3c00, 0xc000, 0x7bff, 0x0001, 0x03ff, 0x0200, 0x7c00, 0xfc00, 0x7e00, 0x3555] {
        let wide = f32::from_bits(f16_to_f32_bits(bits));
        let sign = if bits & 0x8000 != 0 { -1.0f64 } else { 1.0 };
        let exp = ((bits >> 10) & 0x1f) as i32;
        let mant = (bits & 0x3ff) as f64;
        if exp == 31 {
            if mant == 0.0 {
                assert!(wide.is_infinite());
                assert_eq!(wide.is_sign_negative(), sign < 0.0);
            } else {
                assert!(wide.is_nan());
            }
            continue;
        }
        let expected = if exp == 0 {
            sign * mant * 2f64.powi(-24)
        } else {
            sign * (1.0 + mant / 1024.0) * 2f64.powi(exp - 15)
        };
        assert_eq!(wide as f64, expected, "bits {bits:#06x}");
    }
    assert_eq!(f16_to_f32_bits(0x3c00), 0x3f80_0000);
    assert_eq!(f16_to_f32_bits(0x0001), 0x3380_0000);
}

#[test]
fn bfloat16_is_the_upper_half() {
    assert_eq!(bf16_to_f32_bits(0x3f80), 0x3f80_0000);
    assert_eq!(f32::from_bits(bf16_to_f32_bits(0xc040)), -3.0);
}

#[test]
fn little_endian_halves_drop_a_trailing_byte() {
    assert_eq!(le_halves(&[0x00, 0x3c, 0x01, 0x80, 0xff]), vec![0x3c00, 0x8001]);
    assert!(le_halves(&[7]).is_empty());
}

#[test]
fn first_matching_stop_sequence_is_cut() {
    let stops = vec!["</s>".to_string(), "s>".to_string()];
    assert_eq!(cut_at_stop("hello</s>", &stops).as_deref(), Some("hello"));
    let stops2 = vec!["s>".to_string(), "</s>".to_string()];
    assert_eq!(cut_at_stop("hello</s>", &stops2).as_deref(), Some("hello</"));
    assert_eq!(cut_at_stop("hello", &stops), None);
    assert_eq!(cut_at_stop("héllo wörld", &vec!["wörld".to_string()]).as_deref(), Some("héllo "));
}

#[test]
fn streaming_stops_on_any_suffix() {
    let stops = vec!["END".to_string()];
    assert!(hits_stop("the END", &stops));
    assert!(!hits_stop("the ENd", &stops));
    assert!(!hits_stop("anything", &vec![]));
}

#[test]
fn eos_lookup_order() {
    let c = eos_candidates(TemplateFormat::Llama3);
    assert_eq!(c, vec!["<|eot_id|>", "</s>", "<|endoftext|>", "<|eot_id|>", "<|im_end|>", "<|end|>", "<end_of_turn>"]);
    assert_eq!(eos_candidates(TemplateFormat::ChatML)[0], "<|im_end|>");
    assert_eq!(eos_candidates(TemplateFormat::Gemma)[0], "<end_of_turn>");
    assert_eq!(eos_candidates(TemplateFormat::Phi3)[0], "<|end|>");
    assert_eq!(eos_candidates(TemplateFormat::Generic)[0], "</s>");
    assert_eq!(eos_token(&[None, Some(2), Some(7)]), 2);
    assert_eq!(eos_token(&[None, None]), u32::MAX);
}

#[test]
fn model_files_are_checked_before_loading() {
    assert!(matches!(check_model_file(false, "/nonexistent/model.gguf", "gguf"), Err(InferenceError::ModelNotFound(p)) if p == "/nonexistent/model.gguf"));
    assert!(matches!(check_model_file(true, "/m/x.bin", "bin"), Err(InferenceError::UnsupportedFormat(m)) if m == "Candle backend supports GGUF and SafeTensors files only, got: .bin"));
    assert!(check_model_file(true, "/m/x.gguf", "gguf").is_ok());
    assert!(check_model_file(true, "/m/model.safetensors", "safetensors").is_ok());
    assert!(matches!(check_model_file(true, "/m/x.GGUF", "GGUF"), Err(InferenceError::UnsupportedFormat(_))));
    assert!(matches!(missing_tokenizer("/m"), InferenceError::LoadError(m) if m == "tokenizer.json not found in /m. Place the HuggingFace tokenizer.json alongside the GGUF file."));
}

#[test]
fn first_stage_embeds_token_columns() {
    let first = PipelineStageConfig { layer_range: 0..8, total_layers: 16 };
    let later = PipelineStageConfig { layer_range: 8..16, total_layers: 16 };
    assert!(embeds_token_ids(&first, &[5, 1]));
    assert!(!embeds_token_ids(&first, &[5, 4096]));
    assert!(!embeds_token_ids(&later, &[5, 1]));
}

#[test]
fn generation_stops_at_eos_stop_sequence_or_budget() {
    let mut run = GenerationRun::new(3, 10, 2, vec!["</s>".to_string()]);
    assert_eq!(run.on_token(5, Some("Hel")), GenerationStep::Forward { position: 10 });
    assert_eq!(run.on_token(6, Some("lo</")), GenerationStep::Forward { position: 11 });
    assert_eq!(run.on_token(7, Some("s>")), GenerationStep::Finished);
    assert!(run.finished());
    assert_eq!(run.output(), "Hello");

    let mut run = GenerationRun::new(2, 4, 2, vec![]);
    assert_eq!(run.on_token(9, Some("a")), GenerationStep::Forward { position: 4 });
    assert!(!run.finished());
    assert_eq!(run.on_token(9, None), GenerationStep::Forward { position: 5 });
    assert!(run.finished());
    assert_eq!(run.output(), "a");

    let mut run = GenerationRun::new(5, 0, 2, vec![]);
    assert_eq!(run.on_token(2, Some("x")), GenerationStep::Finished);
    assert_eq!(run.output(), "");
    assert!(GenerationRun::new(0, 0, 2, vec![]).finished());

    let mut s = GenerationRun::new(4, 1, 0, vec!["END".to_string()]);
    match s.on_stream_token(3, "the ") {
        StreamStep::Emit { piece, position } => {
            assert_eq!(piece, "the ");
            assert_eq!(position, 1);
        }
        other => panic!("unexpected {other:?}"),
    }
    assert!(matches!(s.on_stream_token(4, "END"), StreamStep::Finished));
    assert_eq!(s.output(), "the END");
}

#[test]
fn xorshift_matches_the_reference_steps() {
    use_xorshift();
}

fn use_xorshift() {
    let mut x: u64 = 88172645463325252;
    let mut reference = x;
    for _ in 0..1000 {
        reference ^= reference << 13;
        reference ^= reference >> 7;
        reference ^= reference << 17;
        x = hivebear::inference::xorshift64(x);
        assert_eq!(x, reference);
        assert_ne!(x, 0);
    }
    assert_eq!(hivebear::inference::xorshift64(0), 0);
}
