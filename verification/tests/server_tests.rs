use zonky::inference::completion_response;
use zonky::manager::fallback_model_info;
use zonky::server::{chat_precheck, default_limit, format_sse_done, generation_failed, model_list, model_not_loaded, plain_error, sse_event, text_completion};

#[test]
fn sse_framing() {
    assert_eq!(format_sse_done(), "data: [DONE]\n\n");
    assert_eq!(sse_event("{\"a\":1}"), "data: {\"a\":1}\n\n");
}

#[test]
fn error_bodies() {
    let e = model_not_loaded("m");
    assert_eq!(e.status, 404);
    assert_eq!(e.message, "Model 'm' is not loaded. Use POST /api/models/load to load it first.");
    assert_eq!(e.kind.as_deref(), Some("invalid_request_error"));
    assert_eq!(e.code.as_deref(), Some("model_not_found"));
    let g = generation_failed("boom".to_string());
    assert_eq!(g.status, 500);
    assert_eq!(g.code.as_deref(), Some("generation_failed"));
    let p = plain_error(400, "bad".to_string());
    assert_eq!(p.status, 400);
    assert!(p.kind.is_none() && p.code.is_none());
}

#[test]
fn chat_needs_loaded_model() {
    let loaded = vec![fallback_model_info("a", 0, 0, "candle")];
    assert!(chat_precheck(&loaded, "a").is_ok());
    let e = chat_precheck(&loaded, "b").unwrap_err();
    assert_eq!(e.status, 404);
    assert_eq!(e.kind.as_deref(), Some("invalid_request_error"));
    assert_eq!(e.code.as_deref(), Some("model_not_found"));
    assert_eq!(e.message, "Model 'b' is not loaded. Use POST /api/models/load to load it first.");
    assert!(chat_precheck(&vec![], "a").is_err());
}

#[test]
fn legacy_completion_shape() {
    let r = completion_response("id".to_string(), 9, "m".to_string(), "text".to_string(), 1, 2);
    let c = text_completion(&r);
    assert_eq!(c.object, "text_completion");
    assert_eq!(c.id, "id");
    assert_eq!(c.created, 9);
    assert_eq!(c.choices.len(), 1);
    assert_eq!(c.choices[0].text, "text");
    assert_eq!(c.choices[0].index, 0);
    assert_eq!(c.choices[0].finish_reason.as_deref(), Some("stop"));
    assert_eq!(c.usage.total_tokens, 3);
}

#[test]
fn list_and_limits() {
    assert_eq!(default_limit(), 20);
    let l = model_list(vec![fallback_model_info("a", 0, 0, "candle")]);
    assert_eq!(l.object, "list");
    assert_eq!(l.data.len(), 1);
}
