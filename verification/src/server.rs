//! What the HTTP API answers, apart from the transport: server-sent event
//! framing, error bodies, the legacy completion shape and the model list.
use vstd::prelude::*;

use crate::manager::{info_views, InfoView};
use crate::text::{chars_of, clone_opt, eq_chars, extend_str, opt_str, owned, string_of};
use crate::types::{GenerationResponse, ModelInfo, ModelListResponse, Usage};

verus! {

/// One server-sent event carrying `json`: `data: {json}` and a blank line.
pub fn sse_event(json: &str) -> (r: String)
    ensures
        r@ == "data: "@ + json@ + "\n\n"@,
{
    let mut m = chars_of("data: ");
    extend_str(&mut m, json);
    extend_str(&mut m, "\n\n");
    string_of(&m)
}

/// The marker that ends an event stream.
pub fn format_sse_done() -> (r: String)
    ensures
        r@ == "data: [DONE]\n\n"@,
{
    owned("data: [DONE]\n\n")
}

/// An error answer: the HTTP status and the `error` object's fields (the
/// plain form carries the message alone).
#[derive(Debug)]
pub struct ApiError {
    pub status: u16,
    pub message: String,
    pub kind: Option<String>,
    pub code: Option<String>,
}

pub open spec fn not_loaded_message(model_id: Seq<char>) -> Seq<char> {
    "Model '"@ + model_id + "' is not loaded. Use POST /api/models/load to load it first."@
}

/// A chat request for a model that is not loaded: 404.
pub fn model_not_loaded(model_id: &str) -> (r: ApiError)
    ensures
        r.status == 404,
        r.message@ == not_loaded_message(model_id@),
        opt_str(r.kind) == Some("invalid_request_error"@),
        opt_str(r.code) == Some("model_not_found"@),
{
    let mut m = chars_of("Model '");
    extend_str(&mut m, model_id);
    extend_str(&mut m, "' is not loaded. Use POST /api/models/load to load it first.");
    ApiError {
        status: 404,
        message: string_of(&m),
        kind: Some(owned("invalid_request_error")),
        code: Some(owned("model_not_found")),
    }
}

/// Generation failed inside the server: 500.
pub fn generation_failed(message: String) -> (r: ApiError)
    ensures
        r.status == 500,
        r.message@ == message@,
        opt_str(r.kind) == Some("server_error"@),
        opt_str(r.code) == Some("generation_failed"@),
{
    ApiError { status: 500, message, kind: Some(owned("server_error")), code: Some(owned("generation_failed")) }
}

/// A failed hub search (500) or model load or unload (400): the message
/// alone.
pub fn plain_error(status: u16, message: String) -> (r: ApiError)
    ensures
        r.status == status,
        r.message@ == message@,
        r.kind is None,
        r.code is None,
{
    ApiError { status, message, kind: None, code: None }
}

pub open spec fn is_loaded(loaded: Seq<InfoView>, model_id: Seq<char>) -> bool {
    exists|i: int| 0 <= i < loaded.len() && #[trigger] loaded[i].id == model_id
}

/// `chat_completions` answers only for a loaded model.
pub fn chat_precheck(loaded: &Vec<ModelInfo>, model_id: &str) -> (r: Result<(), ApiError>)
    ensures
        is_loaded(info_views(loaded@), model_id@) ==> r is Ok,
        !is_loaded(info_views(loaded@), model_id@) ==> (r matches Err(e) && e.status == 404 && e.message@
            == not_loaded_message(model_id@) && opt_str(e.kind) == Some("invalid_request_error"@)
            && opt_str(e.code) == Some("model_not_found"@)),
{
    let q = chars_of(model_id);
    let mut i: usize = 0;
    while i < loaded.len()
        invariant
            i <= loaded.len(),
            q@ == model_id@,
            forall|k: int| 0 <= k < i ==> info_views(loaded@)[k].id != model_id@,
        decreases loaded.len() - i,
    {
        assert(info_views(loaded@)[i as int] == loaded@[i as int]@);
        let a = chars_of(loaded[i].id.as_str());
        if eq_chars(&a, &q) {
            assert(info_views(loaded@)[i as int].id == model_id@);
            return Ok(());
        }
        i = i + 1;
    }
    Err(model_not_loaded(model_id))
}

/// The hub search's default result count.
pub fn default_limit() -> (r: usize)
    ensures
        r == 20,
{
    20
}

/// `GET /v1/models`: the models as an OpenAI list.
pub fn model_list(models: Vec<ModelInfo>) -> (r: ModelListResponse)
    ensures
        r.object@ == "list"@,
        r.data@ == models@,
{
    ModelListResponse { object: owned("list"), data: models }
}

/// One choice of a legacy text completion.
#[derive(Debug)]
pub struct TextChoice {
    pub text: String,
    pub index: u32,
    pub finish_reason: Option<String>,
}

/// The legacy `text_completion` answer of `POST /v1/completions`.
#[derive(Debug)]
pub struct TextCompletion {
    pub id: String,
    pub object: String,
    pub created: i64,
    pub model: String,
    pub choices: Vec<TextChoice>,
    pub usage: Usage,
}

/// A chat response recast as a text completion: each choice's message text
/// with its index and finish reason.
pub fn text_completion(response: &GenerationResponse) -> (r: TextCompletion)
    ensures
        r.id@ == response.id@,
        r.object@ == "text_completion"@,
        r.created == response.created,
        r.model@ == response.model@,
        r.usage == response.usage,
        r.choices@.len() == response.choices@.len(),
        forall|k: int| 0 <= k < response.choices@.len() ==> {
            let c = #[trigger] r.choices@[k];
            &&& c.text@ == response.choices@[k].message.content@
            &&& c.index == response.choices@[k].index
            &&& opt_str(c.finish_reason) == opt_str(response.choices@[k].finish_reason)
        },
{
    let mut choices: Vec<TextChoice> = Vec::new();
    let mut i: usize = 0;
    while i < response.choices.len()
        invariant
            i <= response.choices.len(),
            choices@.len() == i,
            forall|k: int| 0 <= k < i ==> {
                let c = #[trigger] choices@[k];
                &&& c.text@ == response.choices@[k].message.content@
                &&& c.index == response.choices@[k].index
                &&& opt_str(c.finish_reason) == opt_str(response.choices@[k].finish_reason)
            },
        decreases response.choices.len() - i,
    {
        let c = &response.choices[i];
        choices.push(TextChoice {
            text: c.message.content.clone(),
            index: c.index,
            finish_reason: clone_opt(&c.finish_reason),
        });
        i = i + 1;
    }
    TextCompletion {
        id: response.id.clone(),
        object: owned("text_completion"),
        created: response.created,
        model: response.model.clone(),
        choices,
        usage: response.usage,
    }
}

} // verus!
