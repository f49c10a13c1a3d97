use zonky::error::ZonkyError;
use zonky::hub::{bearer, download_url, gguf_files, gguf_siblings, is_gguf_repo, model_info_url, resolve_hf_token, search_url, tokenizer_candidates, tokenizer_not_found, tokenizer_url, tree_url, TreeEntry};
use zonky::types::{HubModelDetail, HubSibling};

#[test]
fn hub_urls() {
    assert_eq!(search_url("llama", 20), "https://huggingface.co/api/models?search=llama&limit=20&sort=downloads&direction=-1&filter=gguf");
    assert_eq!(model_info_url("org/m"), "https://huggingface.co/api/models/org/m");
    assert_eq!(tree_url("org/m"), "https://huggingface.co/api/models/org/m/tree/main");
    assert_eq!(download_url("org/m", "f.gguf"), "https://huggingface.co/org/m/resolve/main/f.gguf");
    assert_eq!(tokenizer_url("org/m"), "https://huggingface.co/org/m/resolve/main/tokenizer.json");
}

fn tree(path: &str, size: Option<u64>, kind: Option<&str>) -> TreeEntry {
    TreeEntry { path: path.to_string(), size, entry_type: kind.map(|s| s.to_string()) }
}

#[test]
fn tree_keeps_gguf_files_only() {
    let t = vec![
        tree("README.md", Some(10), Some("file")),
        tree("a.Q4_K_M.gguf", Some(100), Some("file")),
        tree("dir.gguf", None, Some("directory")),
        tree("b.gguf", None, None),
        tree("c.Q8_0.gguf", Some(200), Some("file")),
    ];
    let files = gguf_files(&t);
    let names: Vec<(&str, Option<u64>)> = files.iter().map(|f| (f.filename.as_str(), f.size)).collect();
    assert_eq!(names, vec![("a.Q4_K_M.gguf", Some(100)), ("c.Q8_0.gguf", Some(200))]);
}

#[test]
fn siblings_keep_gguf_files_only() {
    let d = HubModelDetail {
        model_id: "org/m".to_string(),
        _id_dup: None,
        author: None,
        tags: vec![],
        pipeline_tag: None,
        library_name: None,
        siblings: vec![
            HubSibling { filename: "config.json".to_string(), size: None },
            HubSibling { filename: "m.gguf".to_string(), size: Some(5) },
        ],
        downloads: None,
        likes: None,
    };
    let s = gguf_siblings(&d);
    assert_eq!(s.len(), 1);
    assert_eq!(s[0].filename, "m.gguf");
}

#[test]
fn tokenizer_sources_for_gguf_repo() {
    assert!(is_gguf_repo("TheBloke/Llama-2-7B-GGUF"));
    assert!(!is_gguf_repo("meta/Llama-2-7B"));
    assert!(!is_gguf_repo("noslash-GGUF"));
    let tags = vec![
        "gguf".to_string(),
        "base_model:meta-llama/Llama-2-7b-hf".to_string(),
        "base_model:quantized:meta-llama/Llama-2-7b-hf".to_string(),
    ];
    let c = tokenizer_candidates("TheBloke/Llama-2-7B-GGUF", Some(&tags));
    assert_eq!(c, vec!["TheBloke/Llama-2-7B-GGUF", "TheBloke/Llama-2-7B", "unsloth/Llama-2-7b-hf", "meta-llama/Llama-2-7b-hf"]);
    let plain = tokenizer_candidates("meta/Llama-2-7B", None);
    assert_eq!(plain, vec!["meta/Llama-2-7B"]);
}

#[test]
fn tokenizer_error_lists_sources() {
    let c = vec!["a/b".to_string(), "c/d".to_string()];
    match tokenizer_not_found(&c) {
        ZonkyError::DownloadError(m) => assert_eq!(m, "tokenizer.json not found in any of: a/b, c/d"),
        other => panic!("expected DownloadError, got {other:?}"),
    }
}

#[test]
fn token_resolution_order() {
    assert_eq!(resolve_hf_token(Some("t1".to_string()), Some("t2".to_string()), None), Some("t1".to_string()));
    assert_eq!(resolve_hf_token(Some("".to_string()), Some("t2".to_string()), None), Some("t2".to_string()));
    assert_eq!(resolve_hf_token(None, None, Some("  cached\n".to_string())), Some("cached".to_string()));
    assert_eq!(resolve_hf_token(None, Some("".to_string()), Some(" \n".to_string())), None);
    assert_eq!(bearer("abc"), "Bearer abc");
}
