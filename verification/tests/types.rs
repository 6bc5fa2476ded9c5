use hivebear::types::{chat_message_from_raw, image_part_data, image_part_from, RawContent};
use hivebear::types::{
    tensor_to_u32_ids, ActivationData, ActivationDtype, ChatMessage, ContentPart, HandleCounter,
    InferenceEngine, LoadConfig, ModelHandle, OffloadConfig, PipelineStageConfig,
};

#[test]
fn test_model_handle_unique_ids() {
    let mut counter = HandleCounter::new();
    let h1 = ModelHandle::new("/a".to_string(), InferenceEngine::LlamaCpp, &mut counter);
    let h2 = ModelHandle::new("/b".to_string(), InferenceEngine::Candle, &mut counter);
    assert_ne!(h1.id, h2.id);
}

#[test]
fn test_load_config_defaults() {
    let cfg = LoadConfig::default();
    assert_eq!(cfg.context_length, 4096);
    assert_eq!(cfg.batch_size, 512);
    assert!(cfg.use_mmap);
    assert!(!cfg.use_mlock);
    assert!(cfg.offload.auto);
}

#[test]
fn handle_ids_start_at_one_and_count_up() {
    let mut counter = HandleCounter::new();
    let h1 = ModelHandle::new("/m.gguf".to_string(), InferenceEngine::Candle, &mut counter);
    let h2 = ModelHandle::new("/m.gguf".to_string(), InferenceEngine::Candle, &mut counter);
    assert_eq!(h1.id, 1);
    assert_eq!(h2.id, 2);
    assert_eq!(h1.model_path, "/m.gguf");
}

#[test]
fn offload_config_default_is_auto() {
    let c = OffloadConfig::default();
    assert_eq!(c.gpu_layers, None);
    assert_eq!(c.cpu_layers, None);
    assert_eq!(c.mesh_layers, None);
    assert!(!c.disk_mmap);
    assert!(c.auto);
}

#[test]
fn pipeline_stage_first_and_last() {
    let s = PipelineStageConfig { layer_range: 0..16, total_layers: 32 };
    assert!(s.is_first_stage());
    assert!(!s.is_last_stage());
    let s = PipelineStageConfig { layer_range: 16..32, total_layers: 32 };
    assert!(!s.is_first_stage());
    assert!(s.is_last_stage());
}

#[test]
fn activation_dtype_sizes() {
    assert_eq!(ActivationDtype::F32.byte_size(), 4);
    assert_eq!(ActivationDtype::F16.byte_size(), 2);
    assert_eq!(ActivationDtype::BF16.byte_size(), 2);
}

#[test]
fn token_ids_from_packed_f32() {
    let values: [f32; 6] = [0.0, 1.0, 42.9, 128000.0, -3.0, 5e9];
    let mut data: Vec<u8> = values.iter().flat_map(|f| f.to_le_bytes()).collect();
    data.push(7); // incomplete trailing word is ignored
    let act = ActivationData { data, shape: vec![1, 6], dtype: ActivationDtype::F32 };
    let ids = tensor_to_u32_ids(&act).unwrap();
    let expected: Vec<u32> = values.iter().map(|f| *f as u32).collect();
    assert_eq!(ids, expected);
    assert_eq!(ids, vec![0, 1, 42, 128000, 0, u32::MAX]);
    let nan = f32::NAN.to_le_bytes().to_vec();
    let inf = f32::INFINITY.to_le_bytes().to_vec();
    let act = ActivationData { data: [nan, inf].concat(), shape: vec![2], dtype: ActivationDtype::F32 };
    assert_eq!(tensor_to_u32_ids(&act).unwrap(), vec![0, u32::MAX]);
}

#[test]
fn token_ids_need_f32() {
    let act = ActivationData { data: vec![0, 0], shape: vec![1], dtype: ActivationDtype::F16 };
    assert!(tensor_to_u32_ids(&act).is_err());
}

#[test]
fn user_text_content_joins_text_parts() {
    let msg = ChatMessage::User(vec![
        ContentPart::Text { text: "Hello".into() },
        ContentPart::ImageUrl { url: "https://x/y.png".into() },
        ContentPart::Text { text: "world".into() },
    ]);
    assert_eq!(msg.user_text_content().as_deref(), Some("Hello\nworld"));
    assert!(msg.has_images());
    assert_eq!(msg.images().len(), 1);
    let only_text = ChatMessage::user_text("Hi");
    assert_eq!(only_text.user_text_content().as_deref(), Some("Hi"));
    assert!(!only_text.has_images());
    assert!(only_text.images().is_empty());
    let images_only = ChatMessage::User(vec![ContentPart::Image { data: vec![1, 2], media_type: "image/png".into() }]);
    assert_eq!(images_only.user_text_content(), None);
    assert_eq!(ChatMessage::System("s".into()).user_text_content(), None);
    assert!(!ChatMessage::assistant("a".into()).has_images());
}

#[test]
fn chat_messages_decode_by_role() {
    let none_parts = || Err::<Vec<ContentPart>, String>("unused".into());
    let none_calls = || Ok(Vec::new());
    match chat_message_from_raw("system", RawContent::Text("be brief".into()), none_parts(), none_calls()).unwrap() {
        ChatMessage::System(t) => assert_eq!(t, "be brief"),
        other => panic!("unexpected {other:?}"),
    }
    match chat_message_from_raw("system", RawContent::Other { json: "[1,2]".into() }, none_parts(), none_calls()).unwrap() {
        ChatMessage::System(t) => assert_eq!(t, "[1,2]"),
        other => panic!("unexpected {other:?}"),
    }
    match chat_message_from_raw("system", RawContent::Missing, none_parts(), none_calls()).unwrap() {
        ChatMessage::System(t) => assert_eq!(t, ""),
        other => panic!("unexpected {other:?}"),
    }
    let parts = vec![ContentPart::Text { text: "Hello".into() }];
    match chat_message_from_raw("user", RawContent::Other { json: "[]".into() }, Ok(parts), none_calls()).unwrap() {
        ChatMessage::User(p) => assert!(matches!(&p[0], ContentPart::Text { text } if text == "Hello")),
        other => panic!("unexpected {other:?}"),
    }
    match chat_message_from_raw("user", RawContent::Missing, none_parts(), none_calls()).unwrap() {
        ChatMessage::User(p) => assert!(p.is_empty()),
        other => panic!("unexpected {other:?}"),
    }
    assert_eq!(chat_message_from_raw("user", RawContent::Text("x".into()), none_parts(), none_calls()).unwrap_err(), "unused");
    match chat_message_from_raw("assistant", RawContent::Missing, none_parts(), none_calls()).unwrap() {
        ChatMessage::Assistant { content, tool_calls } => {
            assert_eq!(content, None);
            assert!(tool_calls.is_empty());
        }
        other => panic!("unexpected {other:?}"),
    }
    let obj = RawContent::Object { json: "{}".into(), content: Some("hi".into()), tool_call_id: None, has_tool_calls: false };
    match chat_message_from_raw("assistant", obj, none_parts(), Err("unused".into())).unwrap() {
        ChatMessage::Assistant { content, tool_calls } => {
            assert_eq!(content.as_deref(), Some("hi"));
            assert!(tool_calls.is_empty());
        }
        other => panic!("unexpected {other:?}"),
    }
    let obj = RawContent::Object { json: "{}".into(), content: None, tool_call_id: None, has_tool_calls: true };
    assert_eq!(chat_message_from_raw("assistant", obj, none_parts(), Err("bad calls".into())).unwrap_err(), "bad calls");
    assert_eq!(chat_message_from_raw("assistant", RawContent::Other { json: "1".into() }, none_parts(), none_calls()).unwrap_err(), "invalid assistant content");
    let tool = RawContent::Object { json: "{}".into(), content: None, tool_call_id: Some("c1".into()), has_tool_calls: false };
    match chat_message_from_raw("tool", tool, none_parts(), none_calls()).unwrap() {
        ChatMessage::ToolResult { tool_call_id, content } => {
            assert_eq!(tool_call_id, "c1");
            assert_eq!(content, "");
        }
        other => panic!("unexpected {other:?}"),
    }
    let tool = RawContent::Object { json: "{}".into(), content: None, tool_call_id: None, has_tool_calls: false };
    assert_eq!(chat_message_from_raw("tool", tool, none_parts(), none_calls()).unwrap_err(), "missing tool_call_id");
    assert_eq!(chat_message_from_raw("tool", RawContent::Text("x".into()), none_parts(), none_calls()).unwrap_err(), "expected object for tool content");
    assert_eq!(chat_message_from_raw("tool", RawContent::Missing, none_parts(), none_calls()).unwrap_err(), "expected object for tool content");
    assert_eq!(chat_message_from_raw("robot", RawContent::Missing, none_parts(), none_calls()).unwrap_err(), "unknown role: robot");
}

#[test]
fn image_parts_travel_as_base64() {
    match image_part_from("aGk=", "image/png".into()).unwrap() {
        ContentPart::Image { data, media_type } => {
            assert_eq!(data, b"hi".to_vec());
            assert_eq!(media_type, "image/png");
        }
        other => panic!("unexpected {other:?}"),
    }
    assert!(image_part_from("not base64!", "image/png".into()).is_err());
    assert!(image_part_from("aGk", "image/png".into()).is_err());
    let part = ContentPart::Image { data: vec![0, 255, 7, 8], media_type: "image/jpeg".into() };
    let text = image_part_data(&part).unwrap();
    assert_eq!(text, "AP8HCA==");
    match image_part_from(&text, "image/jpeg".into()).unwrap() {
        ContentPart::Image { data, .. } => assert_eq!(data, vec![0, 255, 7, 8]),
        other => panic!("unexpected {other:?}"),
    }
    assert!(image_part_data(&ContentPart::ImageUrl { url: "u".into() }).is_none());
}
