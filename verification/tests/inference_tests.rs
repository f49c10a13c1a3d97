use zonky::error::ZonkyError;
use zonky::gpu::GpuDevice;
use zonky::inference::{
    backend_model_info, candle_can_load, candle_target, completion_id, completion_response, completion_stamp, content_chunk, eos_candidates,
    final_chunk, format_chat_prompt, gguf_dtype_name, gpu_layers_for_device, key_length_key, llama_can_load, load_precheck, load_read_verdict,
    missing_tokenizer, path_extension, probe_precheck, probe_read_verdict, remap_plan, resolve_eos_token, role_chunk, rope_dimension,
    stream_delta, strip_chat_artifacts, whole_response_chunk, CandleTarget, GgufRead, MetaValue, TokenRun,
};
use zonky::types::{Message, Role};

fn msg(role: Role, content: &str) -> Message {
    Message { role, content: content.to_string() }
}

#[test]
fn chatml_prompt_layout() {
    let p = format_chat_prompt(&vec![msg(Role::System, "Be brief."), msg(Role::User, "Hi")]);
    assert_eq!(p, "<|im_start|>system\nBe brief.<|im_end|>\n<|im_start|>user\nHi<|im_end|>\n<|im_start|>assistant\n");
    assert_eq!(format_chat_prompt(&vec![]), "<|im_start|>assistant\n");
}

#[test]
fn artifacts_are_stripped() {
    assert_eq!(strip_chat_artifacts("assistant\nHello there<|im_end|>\n"), "Hello there");
    assert_eq!(strip_chat_artifacts("<|begin_of_text|>  Answer <|eot_id|>"), "Answer");
    assert_eq!(strip_chat_artifacts("userful text"), "ful text");
    assert_eq!(strip_chat_artifacts("plain"), "plain");
}

#[test]
fn dtype_names() {
    assert_eq!(gguf_dtype_name(0), "F32");
    assert_eq!(gguf_dtype_name(8), "Q8_0");
    assert_eq!(gguf_dtype_name(12), "Q4_K");
    assert_eq!(gguf_dtype_name(17), "IQ2_XS");
}

#[test]
fn extensions() {
    assert_eq!(path_extension("/m/model.Q4_K_M.gguf"), "gguf");
    assert_eq!(path_extension("/m/.hidden"), "");
    assert_eq!(path_extension("/m/noext"), "");
}

#[test]
fn probe_prechecks() {
    assert_eq!(probe_precheck("/m/a.gguf"), Ok(()));
    assert_eq!(probe_precheck("/m/a.safetensors"), Err("Candle backend only supports GGUF format, got .safetensors".to_string()));
    assert_eq!(probe_precheck("/m/MMPROJ-f16.gguf"), Err("Vision/projector file, not a language model".to_string()));
}

#[test]
fn probe_verdicts() {
    assert_eq!(probe_read_verdict(&GgufRead::Read { architecture: Some("llama".to_string()) }), Ok(()));
    assert_eq!(
        probe_read_verdict(&GgufRead::Read { architecture: Some("clip".to_string()) }),
        Err("Architecture 'clip' is a vision/encoder model, not supported for text generation".to_string())
    );
    assert_eq!(probe_read_verdict(&GgufRead::OpenFailed("denied".to_string())), Err("Cannot open file: denied".to_string()));
    assert_eq!(probe_read_verdict(&GgufRead::ReadFailed("bad magic".to_string())), Err("Cannot read GGUF: bad magic".to_string()));
    let e = probe_read_verdict(&GgufRead::ReadFailed("unknown dtype for tensor 17".to_string())).unwrap_err();
    assert!(e.starts_with("Unsupported GGUF tensor type: IQ2_XS. Candle only supports"));
}

#[test]
fn compatibility_records() {
    let ok = candle_can_load(Ok(()));
    assert!(ok.compatible && ok.reason.is_none());
    let no = candle_can_load(Err("why".to_string()));
    assert!(!no.compatible);
    assert_eq!(no.reason.as_deref(), Some("why"));
    assert!(llama_can_load("/m/x.gguf").compatible);
    assert_eq!(llama_can_load("/m/x.bin").reason.as_deref(), Some("Not a GGUF file (.bin)"));
}

#[test]
fn load_checks() {
    assert!(load_precheck("/m/x.gguf").is_ok());
    match load_precheck("/m/x.bin") {
        Err(ZonkyError::InvalidModelFormat(m)) => assert_eq!(m, "Candle backend currently supports GGUF format, got .bin"),
        other => panic!("unexpected {other:?}"),
    }
    match load_read_verdict("/m/mm.gguf", &GgufRead::Read { architecture: Some("llama".to_string()) }, &Some("mmproj".to_string())) {
        Err(ZonkyError::InvalidModelFormat(m)) => assert!(m.starts_with("This GGUF file is a 'mm.gguf' (type: mmproj), not a language model.")),
        other => panic!("unexpected {other:?}"),
    }
    assert!(load_read_verdict("/m/x.gguf", &GgufRead::Read { architecture: Some("qwen2".to_string()) }, &Some("model".to_string())).is_ok());
    match load_read_verdict("/m/x.gguf", &GgufRead::OpenFailed("gone".to_string()), &None) {
        Err(ZonkyError::IoError(m)) => assert_eq!(m, "gone"),
        other => panic!("unexpected {other:?}"),
    }
    match load_read_verdict("/m/x.gguf", &GgufRead::ReadFailed("truncated".to_string()), &None) {
        Err(ZonkyError::InferenceError(m)) => assert_eq!(m, "Failed to read GGUF: truncated"),
        other => panic!("unexpected {other:?}"),
    }
    match missing_tokenizer("/m") {
        ZonkyError::TokenizerError(m) => assert_eq!(m, "No tokenizer.json found in /m. Use `zonky pull` to download the model with its tokenizer."),
        other => panic!("unexpected {other:?}"),
    }
}

#[test]
fn metadata_repair() {
    let keys: Vec<String> = ["general.name", "qwen2.block_count", "qwen2.attention.head_count", "llama.x"].iter().map(|s| s.to_string()).collect();
    let plan = remap_plan(&keys, "qwen2");
    assert_eq!(plan, vec![("llama.block_count".to_string(), 1), ("llama.attention.head_count".to_string(), 2)]);
    assert!(remap_plan(&keys, "llama").is_empty());
    assert_eq!(key_length_key("qwen2"), "qwen2.attention.key_length");
    assert_eq!(rope_dimension(true, &None, &None, &None, &None), None);
    assert_eq!(rope_dimension(false, &Some(MetaValue::U32(128)), &Some(MetaValue::U32(64)), &None, &None), Some(128));
    assert_eq!(rope_dimension(false, &None, &Some(MetaValue::U32(64)), &None, &None), Some(64));
    assert_eq!(rope_dimension(false, &None, &None, &Some(MetaValue::U32(4096)), &Some(MetaValue::U32(32))), Some(128));
    assert_eq!(rope_dimension(false, &None, &None, &Some(MetaValue::U32(4096)), &Some(MetaValue::U32(0))), None);
}

#[test]
fn eos_and_layers() {
    assert_eq!(eos_candidates(), vec!["<|im_end|>", "</s>", "<|endoftext|>", "<|end|>"]);
    assert_eq!(resolve_eos_token(&vec![None, Some(2), Some(7)]), Some(2));
    assert_eq!(resolve_eos_token(&vec![None, None]), None);
    assert_eq!(gpu_layers_for_device(&GpuDevice::Cpu), 0);
    assert_eq!(gpu_layers_for_device(&GpuDevice::Metal { unified_memory: 1 }), 999);
}

#[test]
fn candle_targets() {
    let cuda = GpuDevice::Cuda { index: 1, name: "x".to_string(), vram_total: 1, vram_free: 1 };
    assert_eq!(candle_target(&cuda, true, false), CandleTarget::Cuda(1));
    assert_eq!(candle_target(&cuda, false, false), CandleTarget::Cpu);
    assert_eq!(candle_target(&GpuDevice::Metal { unified_memory: 1 }, false, true), CandleTarget::Metal);
    let rocm = GpuDevice::Rocm { index: 0, name: "r".to_string(), vram_total: 1, vram_free: 1, is_apu: false };
    assert_eq!(candle_target(&rocm, true, true), CandleTarget::Cpu);
}

#[test]
fn responses_and_chunks() {
    assert_eq!(completion_id("abc"), "chatcmpl-abc");
    let r = completion_response("id1".to_string(), 5, "m".to_string(), "hello".to_string(), 3, 4);
    assert_eq!(r.object, "chat.completion");
    assert_eq!(r.choices.len(), 1);
    assert_eq!(r.choices[0].message.content, "hello");
    assert_eq!(r.choices[0].finish_reason.as_deref(), Some("stop"));
    assert_eq!(r.usage.total_tokens, 7);
    let first = role_chunk("id1", 5, "m");
    assert_eq!(first.object, "chat.completion.chunk");
    assert_eq!(first.choices[0].delta.role, Some(Role::Assistant));
    assert!(first.choices[0].delta.content.is_none());
    let mid = content_chunk("id1", 5, "m", "tok".to_string());
    assert_eq!(mid.choices[0].delta.content.as_deref(), Some("tok"));
    let last = final_chunk("id1", 5, "m");
    assert_eq!(last.choices[0].finish_reason.as_deref(), Some("stop"));
    let whole = whole_response_chunk(&r);
    assert_eq!(whole.choices[0].delta.content.as_deref(), Some("hello"));
    let info = backend_model_info("m", 10, "candle");
    assert_eq!(info.backend.as_deref(), Some("candle"));
    assert!(info.loaded);
}

#[test]
fn completion_stamps_are_fresh_ids() {
    let (id, created) = completion_stamp();
    assert!(id.starts_with("chatcmpl-"));
    assert_eq!(id.len(), 45);
    for (i, c) in id[9..].chars().enumerate() {
        if i == 8 || i == 13 || i == 18 || i == 23 {
            assert_eq!(c, '-');
        } else {
            assert!(c.is_ascii_digit() || ('a'..='f').contains(&c));
        }
    }
    assert!(created > 0);
    let (id2, _) = completion_stamp();
    assert_ne!(id, id2);
}

#[test]
fn stream_deltas_concatenate() {
    let texts = ["He", "Hell", "Hell", "Hello, wörld"];
    let mut sent = 0usize;
    let mut out = String::new();
    for t in texts {
        if let Some(d) = stream_delta(t, sent) {
            out.push_str(&d);
            sent = t.len();
        }
    }
    assert_eq!(out, "Hello, wörld");
    assert_eq!(stream_delta("abc", 3), None);
    assert_eq!(stream_delta("abc", 1), Some("bc".to_string()));
}

#[test]
fn token_run_stops_at_eos_or_budget() {
    let mut run = TokenRun::new(3);
    assert!(!run.is_done());
    run.take(5, Some(2));
    run.take(7, Some(2));
    assert_eq!(run.step(), 2);
    run.take(2, Some(2));
    assert!(run.is_done());
    assert_eq!(run.generated(), &vec![5, 7]);
    assert_eq!(run.completion_tokens(), 2);

    let mut capped = TokenRun::new(2);
    capped.take(1, None);
    capped.take(1, None);
    assert!(capped.is_done());
    assert_eq!(capped.completion_tokens(), 2);

    assert!(TokenRun::new(0).is_done());
}
