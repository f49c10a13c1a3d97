//! Inference backends: prompts, output clean-up, GGUF compatibility rules,
//! metadata repair, and the responses a backend hands back.
use vstd::prelude::*;
use vstd::string::*;

use crate::error::ZonkyError;
use crate::gpu::{DeviceView, GpuDevice};
use crate::text::{
    chars_of, contains, contains_exec, eq_chars, extend_chars, extend_str, lemma_pieces_push,
    lemma_split_nonempty, lowercase, opt_str, owned, parse_u64, parse_u64_exec, pieces,
    replace_all, replace_all_exec, slice, split, split_exec, starts_with, starts_with_exec,
    string_of, to_lowercase, trim, trim_exec,
};
use crate::types::{Choice, Delta, GenerationResponse, Message, ModelInfo, Role, StreamChoice, StreamChunk, Usage};
use vstd::utf8::{encode_utf8, is_char_boundary};

verus! {

broadcast use vstd::seq_lib::group_seq_properties;

/// Result of a lightweight compatibility probe.
#[derive(Debug, Clone)]
pub struct BackendCompatibility {
    /// Whether this backend can load the model
    pub compatible: bool,
    /// Human-readable reason if incompatible
    pub reason: Option<String>,
}

/// Opaque handle to a loaded model within a backend.
#[derive(Debug, Clone, PartialEq, Eq, Hash)]
pub struct ModelHandle {
    pub id: String,
    pub backend: String,
}

// ---------------------------------------------------------------------------
// Prompts
// ---------------------------------------------------------------------------

pub open spec fn role_name(r: Role) -> Seq<char> {
    match r {
        Role::System => "system"@,
        Role::User => "user"@,
        Role::Assistant => "assistant"@,
    }
}

/// The ChatML turns of the messages.
pub open spec fn chatml_turns(ms: Seq<Message>) -> Seq<char>
    decreases ms.len(),
{
    if ms.len() == 0 {
        seq![]
    } else {
        chatml_turns(ms.drop_last()) + "<|im_start|>"@ + role_name(ms.last().role) + "\n"@
            + ms.last().content@ + "<|im_end|>\n"@
    }
}

/// The ChatML prompt: one turn per message, then the opened assistant turn.
pub open spec fn chatml_prompt(ms: Seq<Message>) -> Seq<char> {
    chatml_turns(ms) + "<|im_start|>assistant\n"@
}

fn role_str(r: Role) -> (s: &'static str)
    ensures
        s@ == role_name(r),
{
    match r {
        Role::System => "system",
        Role::User => "user",
        Role::Assistant => "assistant",
    }
}

/// `format_chat_prompt`: the messages in ChatML form.
pub fn format_chat_prompt(messages: &Vec<Message>) -> (r: String)
    ensures
        r@ == chatml_prompt(messages@),
{
    let mut v: Vec<char> = Vec::new();
    let mut i: usize = 0;
    while i < messages.len()
        invariant
            i <= messages.len(),
            v@ == chatml_turns(messages@.subrange(0, i as int)),
        decreases messages.len() - i,
    {
        assert(messages@.subrange(0, i + 1).drop_last() =~= messages@.subrange(0, i as int));
        let m = &messages[i];
        extend_str(&mut v, "<|im_start|>");
        extend_str(&mut v, role_str(m.role));
        extend_str(&mut v, "\n");
        extend_str(&mut v, m.content.as_str());
        extend_str(&mut v, "<|im_end|>\n");
        i = i + 1;
    }
    assert(messages@.subrange(0, messages@.len() as int) =~= messages@);
    extend_str(&mut v, "<|im_start|>assistant\n");
    string_of(&v)
}

// ---------------------------------------------------------------------------
// Output clean-up
// ---------------------------------------------------------------------------

/// Removes each chat control token in turn.
pub open spec fn without_control_tokens(t: Seq<char>) -> Seq<char> {
    let a = replace_all(t, "<|im_start|>"@, ""@);
    let b = replace_all(a, "<|im_end|>"@, ""@);
    let c = replace_all(b, "<|start_header_id|>"@, ""@);
    let d = replace_all(c, "<|end_header_id|>"@, ""@);
    let e = replace_all(d, "<|eot_id|>"@, ""@);
    replace_all(e, "<|begin_of_text|>"@, ""@)
}

pub open spec fn drop_prefix(s: Seq<char>, p: Seq<char>) -> Seq<char> {
    if starts_with(s, p) {
        s.subrange(p.len() as int, s.len() as int)
    } else {
        s
    }
}

/// Removes a leading role name, tried in turn for each role with and without
/// a newline.
pub open spec fn without_role_prefixes(s: Seq<char>) -> Seq<char> {
    let a = drop_prefix(s, "assistant\n"@);
    let b = drop_prefix(a, "user\n"@);
    let c = drop_prefix(b, "system\n"@);
    let d = drop_prefix(c, "assistant"@);
    let e = drop_prefix(d, "user"@);
    drop_prefix(e, "system"@)
}

/// What `strip_chat_artifacts` leaves of generated text.
pub open spec fn cleaned_output(t: Seq<char>) -> Seq<char> {
    trim(without_role_prefixes(without_control_tokens(t)))
}

fn remove_all(v: &Vec<char>, pat: &str) -> (r: Vec<char>)
    requires
        pat@.len() > 0,
    ensures
        r@ == replace_all(v@, pat@, ""@),
{
    let p = chars_of(pat);
    let empty = chars_of("");
    replace_all_exec(v, &p, &empty)
}

fn drop_prefix_exec(v: Vec<char>, p: &str) -> (r: Vec<char>)
    ensures
        r@ == drop_prefix(v@, p@),
{
    let pv = chars_of(p);
    if starts_with_exec(&v, &pv) {
        slice(&v, pv.len(), v.len())
    } else {
        v
    }
}

/// `strip_chat_artifacts`: removes chat control tokens and a leading role
/// name that leaked into generated text, and trims it.
pub fn strip_chat_artifacts(text: &str) -> (r: String)
    ensures
        r@ == cleaned_output(text@),
{
    proof {
        reveal_strlit("<|im_start|>");
        reveal_strlit("<|im_end|>");
        reveal_strlit("<|start_header_id|>");
        reveal_strlit("<|end_header_id|>");
        reveal_strlit("<|eot_id|>");
        reveal_strlit("<|begin_of_text|>");
    }
    let t = chars_of(text);
    let a = remove_all(&t, "<|im_start|>");
    let b = remove_all(&a, "<|im_end|>");
    let c = remove_all(&b, "<|start_header_id|>");
    let d = remove_all(&c, "<|end_header_id|>");
    let e = remove_all(&d, "<|eot_id|>");
    let f = remove_all(&e, "<|begin_of_text|>");
    let g = drop_prefix_exec(f, "assistant\n");
    let h = drop_prefix_exec(g, "user\n");
    let i = drop_prefix_exec(h, "system\n");
    let j = drop_prefix_exec(i, "assistant");
    let k = drop_prefix_exec(j, "user");
    let l = drop_prefix_exec(k, "system");
    let m = trim_exec(&l);
    string_of(&m)
}

// ---------------------------------------------------------------------------
// GGUF tensor types
// ---------------------------------------------------------------------------

/// The ggml type name of a GGUF tensor dtype id.
pub open spec fn dtype_name(id: u32) -> Seq<char> {
    if id == 0 {
        "F32"@
    } else if id == 1 {
        "F16"@
    } else if id == 2 {
        "Q4_0"@
    } else if id == 3 {
        "Q4_1"@
    } else if id == 6 {
        "Q5_0"@
    } else if id == 7 {
        "Q5_1"@
    } else if id == 8 {
        "Q8_0"@
    } else if id == 9 {
        "Q8_1"@
    } else if id == 10 {
        "Q2_K"@
    } else if id == 11 {
        "Q3_K"@
    } else if id == 12 {
        "Q4_K"@
    } else if id == 13 {
        "Q5_K"@
    } else if id == 14 {
        "Q6_K"@
    } else if id == 15 {
        "Q8_K"@
    } else if id == 16 {
        "IQ2_XXS"@
    } else if id == 17 {
        "IQ2_XS"@
    } else if id == 18 {
        "IQ3_XXS"@
    } else if id == 19 {
        "IQ1_S"@
    } else if id == 20 {
        "IQ4_NL"@
    } else if id == 21 {
        "IQ3_S"@
    } else if id == 22 {
        "IQ2_S"@
    } else if id == 23 {
        "IQ4_XS"@
    } else if id == 24 {
        "I8"@
    } else if id == 25 {
        "I16"@
    } else if id == 26 {
        "I32"@
    } else if id == 27 {
        "I64"@
    } else if id == 28 {
        "F64"@
    } else if id == 29 {
        "IQ1_M"@
    } else if id == 30 {
        "BF16"@
    } else {
        "unknown"@
    }
}

/// `gguf_dtype_name`: the ggml type name of a dtype id.
pub fn gguf_dtype_name(id: u32) -> (r: &'static str)
    ensures
        r@ == dtype_name(id),
{
    if id == 0 {
        "F32"
    } else if id == 1 {
        "F16"
    } else if id == 2 {
        "Q4_0"
    } else if id == 3 {
        "Q4_1"
    } else if id == 6 {
        "Q5_0"
    } else if id == 7 {
        "Q5_1"
    } else if id == 8 {
        "Q8_0"
    } else if id == 9 {
        "Q8_1"
    } else if id == 10 {
        "Q2_K"
    } else if id == 11 {
        "Q3_K"
    } else if id == 12 {
        "Q4_K"
    } else if id == 13 {
        "Q5_K"
    } else if id == 14 {
        "Q6_K"
    } else if id == 15 {
        "Q8_K"
    } else if id == 16 {
        "IQ2_XXS"
    } else if id == 17 {
        "IQ2_XS"
    } else if id == 18 {
        "IQ3_XXS"
    } else if id == 19 {
        "IQ1_S"
    } else if id == 20 {
        "IQ4_NL"
    } else if id == 21 {
        "IQ3_S"
    } else if id == 22 {
        "IQ2_S"
    } else if id == 23 {
        "IQ4_XS"
    } else if id == 24 {
        "I8"
    } else if id == 25 {
        "I16"
    } else if id == 26 {
        "I32"
    } else if id == 27 {
        "I64"
    } else if id == 28 {
        "F64"
    } else if id == 29 {
        "IQ1_M"
    } else if id == 30 {
        "BF16"
    } else {
        "unknown"
    }
}

// ---------------------------------------------------------------------------
// Paths
// ---------------------------------------------------------------------------

/// The path's components other than empty ones and `.`.
pub open spec fn components(parts: Seq<Seq<char>>) -> Seq<Seq<char>>
    decreases parts.len(),
{
    if parts.len() == 0 {
        seq![]
    } else if parts.last().len() == 0 || parts.last() == "."@ {
        components(parts.drop_last())
    } else {
        components(parts.drop_last()).push(parts.last())
    }
}

/// `Path::file_name` on Unix: the last component, unless it is `..` or the
/// path has none.
pub open spec fn file_name_of(path: Seq<char>) -> Option<Seq<char>> {
    let cs = components(split(path, "/"@));
    if cs.len() == 0 || cs.last() == ".."@ {
        None
    } else {
        Some(cs.last())
    }
}

/// Index of the last `c` in `s`, or -1.
pub open spec fn last_index_of(s: Seq<char>, c: char, n: int) -> int
    decreases n,
{
    if n <= 0 {
        -1
    } else if s[n - 1] == c {
        n - 1
    } else {
        last_index_of(s, c, n - 1)
    }
}

/// `Path::extension` of a file name: the text after its last `.`, unless the
/// name has no `.` other than a leading one.
pub open spec fn extension_of_name(name: Seq<char>) -> Option<Seq<char>> {
    let k = last_index_of(name, '.', name.len() as int);
    if name == ".."@ || k <= 0 {
        None
    } else {
        Some(name.subrange(k + 1, name.len() as int))
    }
}

/// `path.extension().and_then(|e| e.to_str()).unwrap_or("")`.
pub open spec fn extension_of(path: Seq<char>) -> Seq<char> {
    match file_name_of(path) {
        Some(n) => match extension_of_name(n) {
            Some(e) => e,
            None => seq![],
        },
        None => seq![],
    }
}

/// `path.file_name().unwrap_or_default()`.
pub open spec fn file_name_or_empty(path: Seq<char>) -> Seq<char> {
    match file_name_of(path) {
        Some(n) => n,
        None => seq![],
    }
}

fn file_name_exec(path: &str) -> (r: Option<Vec<char>>)
    ensures
        crate::text::opt_chars(r) == file_name_of(path@),
{
    let p = chars_of(path);
    let slash = chars_of("/");
    proof {
        reveal_strlit("/");
    }
    let parts = split_exec(&p, &slash);
    let dot = chars_of(".");
    let mut cs: Vec<Vec<char>> = Vec::new();
    let mut i: usize = 0;
    while i < parts.len()
        invariant
            i <= parts.len(),
            dot@ == "."@,
            pieces(&cs) == components(pieces(&parts).subrange(0, i as int)),
        decreases parts.len() - i,
    {
        assert(pieces(&parts).subrange(0, i + 1).drop_last() =~= pieces(&parts).subrange(0, i as int));
        assert(pieces(&parts).subrange(0, i + 1).last() == parts@[i as int]@);
        if parts[i].len() != 0 && !eq_chars(&parts[i], &dot) {
            let c = parts[i].clone();
            let ghost before = cs@;
            cs.push(c);
            proof {
                lemma_pieces_push(before, cs@, c);
            }
        }
        i = i + 1;
    }
    assert(pieces(&parts).subrange(0, parts@.len() as int) =~= pieces(&parts));
    if cs.len() == 0 {
        return None;
    }
    let last = cs[cs.len() - 1].clone();
    assert(pieces(&cs).last() == last@);
    let dd = chars_of("..");
    if eq_chars(&last, &dd) {
        None
    } else {
        Some(last)
    }
}

fn extension_exec(path: &str) -> (r: Vec<char>)
    ensures
        r@ == extension_of(path@),
{
    match file_name_exec(path) {
        Some(name) => {
            let dd = chars_of("..");
            let mut n = name.len();
            while n > 0 && name[n - 1] != '.'
                invariant
                    n <= name.len(),
                    last_index_of(name@, '.', name@.len() as int) == last_index_of(
                        name@,
                        '.',
                        n as int,
                    ),
                decreases n,
            {
                n = n - 1;
            }
            assert(last_index_of(name@, '.', name@.len() as int) == n - 1);
            if eq_chars(&name, &dd) || n <= 1 {
                Vec::new()
            } else {
                slice(&name, n, name.len())
            }
        },
        None => Vec::new(),
    }
}

/// The extension of a path, or empty.
pub fn path_extension(path: &str) -> (r: String)
    ensures
        r@ == extension_of(path@),
{
    let e = extension_exec(path);
    string_of(&e)
}

// ---------------------------------------------------------------------------
// Compatibility of GGUF files
// ---------------------------------------------------------------------------

/// The lower-cased file name names a vision encoder or projector.
pub open spec fn is_vision_name(lower: Seq<char>) -> bool {
    contains(lower, "mmproj"@) || contains(lower, "vision-encoder"@) || contains(lower, "clip-"@)
}

/// An encoder architecture that generates no text.
pub open spec fn is_encoder_arch(arch: Seq<char>) -> bool {
    arch == "clip"@ || arch == "t5encoder"@ || arch == "mllama"@
}

/// Checks made before a GGUF header is read for a compatibility probe.
pub open spec fn probe_precheck_of(path: Seq<char>) -> Result<(), Seq<char>> {
    let ext = extension_of(path);
    if ext != "gguf"@ {
        Err("Candle backend only supports GGUF format, got ."@ + ext)
    } else if is_vision_name(lowercase(file_name_or_empty(path))) {
        Err("Vision/projector file, not a language model"@)
    } else {
        Ok(())
    }
}

pub open spec fn unit_result(r: Result<(), String>) -> Result<(), Seq<char>> {
    match r {
        Ok(_) => Ok(()),
        Err(s) => Err(s@),
    }
}

fn lower_file_name(path: &str) -> (r: Vec<char>)
    ensures
        r@ == lowercase(file_name_or_empty(path@)),
{
    let name = match file_name_exec(path) {
        Some(n) => n,
        None => Vec::new(),
    };
    let ns = string_of(&name);
    let l = to_lowercase(ns.as_str());
    chars_of(l.as_str())
}

fn is_vision_exec(lower: &Vec<char>) -> (r: bool)
    ensures
        r == is_vision_name(lower@),
{
    contains_exec(lower, &chars_of("mmproj")) || contains_exec(lower, &chars_of("vision-encoder"))
        || contains_exec(lower, &chars_of("clip-"))
}

fn is_encoder_exec(arch: &Vec<char>) -> (r: bool)
    ensures
        r == is_encoder_arch(arch@),
{
    eq_chars(arch, &chars_of("clip")) || eq_chars(arch, &chars_of("t5encoder")) || eq_chars(
        arch,
        &chars_of("mllama"),
    )
}

/// The part of the compatibility probe made before reading the file: the
/// extension must be `gguf` and the name must not be a vision file.
pub fn probe_precheck(path: &str) -> (r: Result<(), String>)
    ensures
        unit_result(r) == probe_precheck_of(path@),
{
    let ext = extension_exec(path);
    let gguf = chars_of("gguf");
    if !eq_chars(&ext, &gguf) {
        let mut m = chars_of("Candle backend only supports GGUF format, got .");
        extend_chars(&mut m, &ext);
        return Err(string_of(&m));
    }
    let lower = lower_file_name(path);
    if is_vision_exec(&lower) {
        return Err(owned("Vision/projector file, not a language model"));
    }
    Ok(())
}

/// What reading a GGUF header gave.
pub enum GgufRead {
    /// The file could not be opened; the error's message.
    OpenFailed(String),
    /// The header could not be parsed; the error's message.
    ReadFailed(String),
    /// The header was read; its `general.architecture`, when it is a string.
    Read { architecture: Option<String> },
}

/// The dtype id in an "unknown dtype for tensor N" message.
pub open spec fn unknown_dtype_id(err: Seq<char>) -> Option<u32> {
    let parts = split(err, "unknown dtype for tensor "@);
    if parts.len() > 1 {
        match parse_u64(trim(parts[1]), 10) {
            Some(v) => if v <= u32::MAX {
                Some(v as u32)
            } else {
                None
            },
            None => None,
        }
    } else {
        None
    }
}

/// The name of the dtype an "unknown dtype" message names.
pub open spec fn unknown_dtype_name(err: Seq<char>) -> Seq<char> {
    match unknown_dtype_id(err) {
        Some(id) => dtype_name(id),
        None => "unknown"@,
    }
}

fn unknown_dtype_name_exec(err: &Vec<char>) -> (r: Vec<char>)
    ensures
        r@ == unknown_dtype_name(err@),
{
    let sep = chars_of("unknown dtype for tensor ");
    proof {
        reveal_strlit("unknown dtype for tensor ");
    }
    let parts = split_exec(err, &sep);
    if parts.len() > 1 {
        assert(pieces(&parts)[1] == parts@[1]@);
        let t = trim_exec(&parts[1]);
        match parse_u64_exec(&t, 10) {
            Some(v) => {
                if v <= 0xffff_ffff {
                    return chars_of(gguf_dtype_name(v as u32));
                }
            },
            None => {},
        }
    }
    chars_of("unknown")
}

/// The verdict of the compatibility probe on a read header.
pub open spec fn probe_read_of(read: GgufRead) -> Result<(), Seq<char>> {
    match read {
        GgufRead::OpenFailed(e) => Err("Cannot open file: "@ + e@),
        GgufRead::ReadFailed(e) => if contains(e@, "unknown dtype"@) {
            Err("Unsupported GGUF tensor type: "@ + unknown_dtype_name(e@)
                + ". Candle only supports standard quantizations (Q4_K_M, Q5_K_M, Q8_0, F16, BF16). IQ-series quantizations (IQ2, IQ3, IQ4) are not supported. Download a Q4_K_M or Q5_K_M variant instead."@)
        } else {
            Err("Cannot read GGUF: "@ + e@)
        },
        GgufRead::Read { architecture } => {
            let arch = match opt_str(architecture) {
                Some(a) => a,
                None => seq![],
            };
            if is_encoder_arch(arch) {
                Err("Architecture '"@ + arch
                    + "' is a vision/encoder model, not supported for text generation"@)
            } else {
                Ok(())
            }
        },
    }
}

/// The compatibility probe's verdict once the header was read (or failed to
/// be).
pub fn probe_read_verdict(read: &GgufRead) -> (r: Result<(), String>)
    ensures
        unit_result(r) == probe_read_of(*read),
{
    match read {
        GgufRead::OpenFailed(e) => {
            let mut m = chars_of("Cannot open file: ");
            extend_str(&mut m, e.as_str());
            Err(string_of(&m))
        },
        GgufRead::ReadFailed(e) => {
            let ev = chars_of(e.as_str());
            if contains_exec(&ev, &chars_of("unknown dtype")) {
                let mut m = chars_of("Unsupported GGUF tensor type: ");
                let n = unknown_dtype_name_exec(&ev);
                extend_chars(&mut m, &n);
                extend_str(
                    &mut m,
                    ". Candle only supports standard quantizations (Q4_K_M, Q5_K_M, Q8_0, F16, BF16). IQ-series quantizations (IQ2, IQ3, IQ4) are not supported. Download a Q4_K_M or Q5_K_M variant instead.",
                );
                Err(string_of(&m))
            } else {
                let mut m = chars_of("Cannot read GGUF: ");
                extend_chars(&mut m, &ev);
                Err(string_of(&m))
            }
        },
        GgufRead::Read { architecture } => {
            let arch: Vec<char> = match architecture {
                Some(a) => chars_of(a.as_str()),
                None => Vec::new(),
            };
            if is_encoder_exec(&arch) {
                let mut m = chars_of("Architecture '");
                extend_chars(&mut m, &arch);
                extend_str(&mut m, "' is a vision/encoder model, not supported for text generation");
                Err(string_of(&m))
            } else {
                Ok(())
            }
        },
    }
}

/// `probe_gguf_compatibility` as a whole: the precheck, then the verdict on
/// the header (which is read only when the precheck passes).
pub open spec fn probe_of(path: Seq<char>, read: GgufRead) -> Result<(), Seq<char>> {
    match probe_precheck_of(path) {
        Err(e) => Err(e),
        Ok(_) => probe_read_of(read),
    }
}

/// `CandleBackend::can_load`: compatible exactly when the probe passes; the
/// probe's message is the reason otherwise.
pub fn candle_can_load(probe: Result<(), String>) -> (r: BackendCompatibility)
    ensures
        r.compatible == probe is Ok,
        match probe {
            Ok(_) => r.reason is None,
            Err(m) => r.reason matches Some(s) && s@ == m@,
        },
{
    match probe {
        Ok(()) => BackendCompatibility { compatible: true, reason: None },
        Err(reason) => BackendCompatibility { compatible: false, reason: Some(reason) },
    }
}

/// `LlamaCppBackend::can_load`: any `.gguf` file.
pub fn llama_can_load(path: &str) -> (r: BackendCompatibility)
    ensures
        r.compatible == (extension_of(path@) == "gguf"@),
        r.compatible ==> r.reason is None,
        !r.compatible ==> (r.reason matches Some(s) && s@ == "Not a GGUF file (."@ + extension_of(
            path@,
        ) + ")"@),
{
    let ext = extension_exec(path);
    if eq_chars(&ext, &chars_of("gguf")) {
        BackendCompatibility { compatible: true, reason: None }
    } else {
        let mut m = chars_of("Not a GGUF file (.");
        extend_chars(&mut m, &ext);
        extend_str(&mut m, ")");
        BackendCompatibility { compatible: false, reason: Some(string_of(&m)) }
    }
}


// ---------------------------------------------------------------------------
// Loading a GGUF model
// ---------------------------------------------------------------------------

/// Checks made by the Candle backend before it reads a model file.
pub open spec fn load_precheck_of(path: Seq<char>) -> Option<Seq<char>> {
    let ext = extension_of(path);
    if ext != "gguf"@ {
        Some("Candle backend currently supports GGUF format, got ."@ + ext)
    } else if is_vision_name(lowercase(file_name_or_empty(path))) {
        Some("'"@ + file_name_or_empty(path)
            + "' is a vision/projector file, not a language model. Download the main model GGUF file instead (e.g. the Q4_K_M or Q8_0 variant)."@)
    } else {
        None
    }
}

/// `Err(InvalidModelFormat(message))` exactly when [`load_precheck_of`] gives
/// a message.
pub fn load_precheck(path: &str) -> (r: Result<(), ZonkyError>)
    ensures
        match load_precheck_of(path@) {
            None => r is Ok,
            Some(m) => r matches Err(ZonkyError::InvalidModelFormat(s)) && s@ == m,
        },
{
    let ext = extension_exec(path);
    if !eq_chars(&ext, &chars_of("gguf")) {
        let mut m = chars_of("Candle backend currently supports GGUF format, got .");
        extend_chars(&mut m, &ext);
        return Err(ZonkyError::InvalidModelFormat(string_of(&m)));
    }
    let lower = lower_file_name(path);
    if is_vision_exec(&lower) {
        let name = match file_name_exec(path) {
            Some(n) => n,
            None => Vec::new(),
        };
        let mut m = chars_of("'");
        extend_chars(&mut m, &name);
        extend_str(
            &mut m,
            "' is a vision/projector file, not a language model. Download the main model GGUF file instead (e.g. the Q4_K_M or Q8_0 variant).",
        );
        return Err(ZonkyError::InvalidModelFormat(string_of(&m)));
    }
    Ok(())
}

/// The Candle backend's verdict on a read header when loading, given the
/// header's `general.type` when it is a string.
pub open spec fn load_read_of(path: Seq<char>, read: GgufRead, general_type: Option<Seq<char>>) -> Option<
    ZonkyErrorView,
> {
    let name = file_name_or_empty(path);
    match read {
        GgufRead::OpenFailed(e) => Some(ZonkyErrorView::Io(e@)),
        GgufRead::ReadFailed(e) => if contains(e@, "unknown dtype"@) {
            Some(
                ZonkyErrorView::InvalidFormat(
                    "Unsupported GGUF tensor type '"@ + unknown_dtype_name(e@) + "' in '"@ + name
                        + "'. Candle supports standard quantizations (Q4_K_M, Q5_K_M, Q8_0, F16, BF16) but not IQ-series (IQ2, IQ3, IQ4). Download a Q4_K_M or Q5_K_M variant instead."@,
                ),
            )
        } else {
            Some(ZonkyErrorView::Inference("Failed to read GGUF: "@ + e@))
        },
        GgufRead::Read { architecture } => {
            let arch = match opt_str(architecture) {
                Some(a) => a,
                None => seq![],
            };
            match general_type {
                Some(t) if t != "model"@ => Some(
                    ZonkyErrorView::InvalidFormat(
                        "This GGUF file is a '"@ + name + "' (type: "@ + t
                            + "), not a language model. It cannot be used for text generation. Download the main model GGUF file instead."@,
                    ),
                ),
                _ => if is_encoder_arch(arch) {
                    Some(
                        ZonkyErrorView::InvalidFormat(
                            "This GGUF file uses the '"@ + arch
                                + "' architecture, which is a vision/encoder model, not a text generation model. Download the main model GGUF file instead."@,
                        ),
                    )
                } else {
                    None
                },
            }
        },
    }
}

/// The errors [`load_read_of`] distinguishes.
pub enum ZonkyErrorView {
    Io(Seq<char>),
    InvalidFormat(Seq<char>),
    Inference(Seq<char>),
}

pub open spec fn error_view_matches(e: ZonkyError, v: ZonkyErrorView) -> bool {
    match v {
        ZonkyErrorView::Io(m) => e matches ZonkyError::IoError(s) && s@ == m,
        ZonkyErrorView::InvalidFormat(m) => e matches ZonkyError::InvalidModelFormat(s) && s@ == m,
        ZonkyErrorView::Inference(m) => e matches ZonkyError::InferenceError(s) && s@ == m,
    }
}

/// The verdict of `load_gguf_model` on a model's header.
pub fn load_read_verdict(path: &str, read: &GgufRead, general_type: &Option<String>) -> (r: Result<
    (),
    ZonkyError,
>)
    ensures
        match load_read_of(path@, *read, opt_str(*general_type)) {
            None => r is Ok,
            Some(v) => r matches Err(e) && error_view_matches(e, v),
        },
{
    let name = match file_name_exec(path) {
        Some(n) => n,
        None => Vec::new(),
    };
    match read {
        GgufRead::OpenFailed(e) => Err(ZonkyError::IoError(e.clone())),
        GgufRead::ReadFailed(e) => {
            let ev = chars_of(e.as_str());
            if contains_exec(&ev, &chars_of("unknown dtype")) {
                let mut m = chars_of("Unsupported GGUF tensor type '");
                let n = unknown_dtype_name_exec(&ev);
                extend_chars(&mut m, &n);
                extend_str(&mut m, "' in '");
                extend_chars(&mut m, &name);
                extend_str(
                    &mut m,
                    "'. Candle supports standard quantizations (Q4_K_M, Q5_K_M, Q8_0, F16, BF16) but not IQ-series (IQ2, IQ3, IQ4). Download a Q4_K_M or Q5_K_M variant instead.",
                );
                Err(ZonkyError::InvalidModelFormat(string_of(&m)))
            } else {
                let mut m = chars_of("Failed to read GGUF: ");
                extend_chars(&mut m, &ev);
                Err(ZonkyError::InferenceError(string_of(&m)))
            }
        },
        GgufRead::Read { architecture } => {
            match general_type {
                Some(t) => {
                    let tv = chars_of(t.as_str());
                    if !eq_chars(&tv, &chars_of("model")) {
                        let mut m = chars_of("This GGUF file is a '");
                        extend_chars(&mut m, &name);
                        extend_str(&mut m, "' (type: ");
                        extend_chars(&mut m, &tv);
                        extend_str(
                            &mut m,
                            "), not a language model. It cannot be used for text generation. Download the main model GGUF file instead.",
                        );
                        return Err(ZonkyError::InvalidModelFormat(string_of(&m)));
                    }
                },
                None => {},
            }
            let arch: Vec<char> = match architecture {
                Some(a) => chars_of(a.as_str()),
                None => Vec::new(),
            };
            if is_encoder_exec(&arch) {
                let mut m = chars_of("This GGUF file uses the '");
                extend_chars(&mut m, &arch);
                extend_str(
                    &mut m,
                    "' architecture, which is a vision/encoder model, not a text generation model. Download the main model GGUF file instead.",
                );
                Err(ZonkyError::InvalidModelFormat(string_of(&m)))
            } else {
                Ok(())
            }
        },
    }
}

/// The error when a model's directory holds no `tokenizer.json`.
pub fn missing_tokenizer(model_dir: &str) -> (r: ZonkyError)
    ensures
        r matches ZonkyError::TokenizerError(m) && m@ == "No tokenizer.json found in "@ + model_dir@
            + ". Use `zonky pull` to download the model with its tokenizer."@,
{
    let mut m = chars_of("No tokenizer.json found in ");
    extend_str(&mut m, model_dir);
    extend_str(&mut m, ". Use `zonky pull` to download the model with its tokenizer.");
    ZonkyError::TokenizerError(string_of(&m))
}

// ---------------------------------------------------------------------------
// GGUF metadata repair
// ---------------------------------------------------------------------------

/// A metadata value, as far as the repair reads it.
pub enum MetaValue {
    U32(u32),
    Other,
}

pub open spec fn meta_u32(v: Option<MetaValue>) -> Option<u32> {
    match v {
        Some(MetaValue::U32(x)) => Some(x),
        _ => None,
    }
}

/// The `llama.*` copies of the `<arch>.*` keys: for each such key, in order,
/// the new key and the index of the key whose value it takes. Nothing is
/// copied for an empty or `llama` architecture.
pub open spec fn remap_of(keys: Seq<String>, arch: Seq<char>) -> Seq<(Seq<char>, int)>
    decreases keys.len(),
{
    if keys.len() == 0 || arch.len() == 0 || arch == "llama"@ {
        seq![]
    } else {
        let prev = remap_of(keys.drop_last(), arch);
        let k = keys.last()@;
        let prefix = arch + "."@;
        if starts_with(k, prefix) {
            prev.push(
                (
                    "llama."@ + k.subrange(prefix.len() as int, k.len() as int),
                    keys.len() - 1,
                ),
            )
        } else {
            prev
        }
    }
}

pub open spec fn plan_view(p: Seq<(String, usize)>) -> Seq<(Seq<char>, int)> {
    p.map_values(|e: (String, usize)| (e.0@, e.1 as int))
}

/// `remap_metadata_to_llama`'s plan: which `llama.*` keys to add (when absent)
/// and from which existing key.
pub fn remap_plan(keys: &Vec<String>, arch: &str) -> (r: Vec<(String, usize)>)
    ensures
        plan_view(r@) == remap_of(keys@, arch@),
{
    let av = chars_of(arch);
    let mut out: Vec<(String, usize)> = Vec::new();
    if av.len() == 0 || eq_chars(&av, &chars_of("llama")) {
        assert(plan_view(out@) =~= Seq::<(Seq<char>, int)>::empty());
        assert(remap_of(keys@, arch@) =~= Seq::<(Seq<char>, int)>::empty()) by {
            if keys@.len() > 0 {
            }
        }
        return out;
    }
    let mut prefix = av.clone();
    extend_str(&mut prefix, ".");
    let mut i: usize = 0;
    while i < keys.len()
        invariant
            i <= keys.len(),
            av@ == arch@,
            av@.len() > 0,
            av@ != "llama"@,
            prefix@ == arch@ + "."@,
            plan_view(out@) == remap_of(keys@.subrange(0, i as int), arch@),
        decreases keys.len() - i,
    {
        assert(keys@.subrange(0, i + 1).drop_last() =~= keys@.subrange(0, i as int));
        assert(keys@.subrange(0, i + 1).last() == keys@[i as int]);
        let kv = chars_of(keys[i].as_str());
        if starts_with_exec(&kv, &prefix) {
            let mut nk = chars_of("llama.");
            let rest = slice(&kv, prefix.len(), kv.len());
            extend_chars(&mut nk, &rest);
            let e = (string_of(&nk), i);
            let ghost before = out@;
            out.push(e);
            assert(plan_view(out@) =~= plan_view(before).push((e.0@, i as int)));
        }
        i = i + 1;
    }
    assert(keys@.subrange(0, keys@.len() as int) =~= keys@);
    out
}

/// The key holding an architecture's attention key length.
pub fn key_length_key(arch: &str) -> (r: String)
    ensures
        r@ == arch@ + ".attention.key_length"@,
{
    let mut v = chars_of(arch);
    extend_str(&mut v, ".attention.key_length");
    string_of(&v)
}

/// `llama.rope.dimension_count` to add when it is missing: the attention
/// key length (the architecture's key if present, else llama's), else the
/// embedding length over the head count.
pub open spec fn rope_dim_of(
    has_rope: bool,
    arch_key_length: Option<MetaValue>,
    llama_key_length: Option<MetaValue>,
    embedding_length: Option<MetaValue>,
    head_count: Option<MetaValue>,
) -> Option<u32> {
    let key_length = match arch_key_length {
        Some(v) => meta_u32(Some(v)),
        None => meta_u32(llama_key_length),
    };
    if has_rope {
        None
    } else if key_length is Some {
        key_length
    } else {
        match (meta_u32(embedding_length), meta_u32(head_count)) {
            (Some(e), Some(h)) => if h > 0 {
                Some((e / h) as u32)
            } else {
                None
            },
            _ => None,
        }
    }
}

fn meta_u32_exec(v: &Option<MetaValue>) -> (r: Option<u32>)
    ensures
        r == meta_u32(*v),
{
    match v {
        Some(MetaValue::U32(x)) => Some(*x),
        _ => None,
    }
}

/// `synthesize_rope_dim`'s decision.
pub fn rope_dimension(
    has_rope: bool,
    arch_key_length: &Option<MetaValue>,
    llama_key_length: &Option<MetaValue>,
    embedding_length: &Option<MetaValue>,
    head_count: &Option<MetaValue>,
) -> (r: Option<u32>)
    ensures
        r == rope_dim_of(has_rope, *arch_key_length, *llama_key_length, *embedding_length, *head_count),
{
    if has_rope {
        return None;
    }
    let key_length = match arch_key_length {
        Some(_) => meta_u32_exec(arch_key_length),
        None => meta_u32_exec(llama_key_length),
    };
    if key_length.is_some() {
        return key_length;
    }
    match (meta_u32_exec(embedding_length), meta_u32_exec(head_count)) {
        (Some(e), Some(h)) => if h > 0 {
            Some(e / h)
        } else {
            None
        },
        _ => None,
    }
}

// ---------------------------------------------------------------------------
// Tokens and devices
// ---------------------------------------------------------------------------

/// Tokens tried, in order, as the end-of-sequence marker.
pub fn eos_candidates() -> (r: Vec<String>)
    ensures
        r@.map_values(|s: String| s@) == seq!["<|im_end|>"@, "</s>"@, "<|endoftext|>"@, "<|end|>"@],
{
    let mut r: Vec<String> = Vec::new();
    r.push(owned("<|im_end|>"));
    r.push(owned("</s>"));
    r.push(owned("<|endoftext|>"));
    r.push(owned("<|end|>"));
    assert(r@.map_values(|s: String| s@) =~= seq![
        "<|im_end|>"@,
        "</s>"@,
        "<|endoftext|>"@,
        "<|end|>"@,
    ]);
    r
}

pub open spec fn first_some(ids: Seq<Option<u32>>, i: int) -> Option<u32>
    decreases ids.len() - i,
{
    if i < 0 || i >= ids.len() {
        None
    } else if ids[i] is Some {
        ids[i]
    } else {
        first_some(ids, i + 1)
    }
}

/// `resolve_eos_token`: the id of the first candidate the tokenizer knows.
pub fn resolve_eos_token(ids: &Vec<Option<u32>>) -> (r: Option<u32>)
    ensures
        r == first_some(ids@, 0),
{
    let mut i: usize = 0;
    while i < ids.len()
        invariant
            i <= ids.len(),
            first_some(ids@, 0) == first_some(ids@, i as int),
        decreases ids.len() - i,
    {
        if ids[i].is_some() {
            return ids[i];
        }
        i = i + 1;
    }
    None
}

/// Layers offloaded to the GPU by llama.cpp: none on the CPU, all otherwise.
pub fn gpu_layers_for_device(device: &GpuDevice) -> (r: u32)
    ensures
        r == if device@ is Cpu {
            0u32
        } else {
            999u32
        },
{
    match device {
        GpuDevice::Cpu => 0,
        _ => 999,
    }
}

/// Where Candle runs a model.
#[derive(Debug, Clone, Copy, PartialEq, Eq, Structural)]
pub enum CandleTarget {
    Cuda(usize),
    Metal,
    Cpu,
}

/// `gpu_device_to_candle`: CUDA and Metal devices are used when Candle was
/// built with that support; everything else (ROCm included) runs on the CPU.
pub fn candle_target(device: &GpuDevice, cuda_built: bool, metal_built: bool) -> (r: CandleTarget)
    ensures
        r == match device@ {
            DeviceView::Cuda { index, .. } => if cuda_built {
                CandleTarget::Cuda(index)
            } else {
                CandleTarget::Cpu
            },
            DeviceView::Metal { .. } => if metal_built {
                CandleTarget::Metal
            } else {
                CandleTarget::Cpu
            },
            _ => CandleTarget::Cpu,
        },
{
    match device {
        GpuDevice::Cuda { index, .. } => if cuda_built {
            CandleTarget::Cuda(*index)
        } else {
            CandleTarget::Cpu
        },
        GpuDevice::Metal { .. } => if metal_built {
            CandleTarget::Metal
        } else {
            CandleTarget::Cpu
        },
        _ => CandleTarget::Cpu,
    }
}

// ---------------------------------------------------------------------------
// Responses
// ---------------------------------------------------------------------------

/// The id of a completion: `chatcmpl-<uuid>`.
pub fn completion_id(uuid: &str) -> (r: String)
    ensures
        r@ == "chatcmpl-"@ + uuid@,
{
    let mut v = chars_of("chatcmpl-");
    extend_str(&mut v, uuid);
    string_of(&v)
}

/// The hyphenated text form of a UUID: 36 characters, `-` at positions 8,
/// 13, 18 and 23, and a lower-case hexadecimal digit everywhere else.
pub open spec fn is_hyphenated_uuid(u: Seq<char>) -> bool {
    &&& u.len() == 36
    &&& forall|i: int|
        0 <= i < 36 ==> if i == 8 || i == 13 || i == 18 || i == 23 {
            #[trigger] u[i] == '-'
        } else {
            ('0' <= u[i] <= '9') || ('a' <= u[i] <= 'f')
        }
}

/// `uuid::Uuid::new_v4().to_string()`: a random version-4 UUID in its
/// hyphenated lower-case text form; which UUID comes back is left open.
#[verifier::external_body]
fn random_uuid() -> (r: String)
    ensures
        is_hyphenated_uuid(r@),
{
    uuid::Uuid::new_v4().to_string()
}

/// `chrono::Utc::now().timestamp()`: the current Unix time in seconds; it
/// depends on the clock, so nothing is stated of it.
#[verifier::external_body]
pub(crate) fn unix_time() -> i64 {
    chrono::Utc::now().timestamp()
}

/// The id and creation time of a new completion: `chatcmpl-` followed by a
/// fresh random UUID, and the current Unix time.
pub fn completion_stamp() -> (r: (String, i64))
    ensures
        r.0@.len() == 45,
        r.0@.subrange(0, 9) == "chatcmpl-"@,
        is_hyphenated_uuid(r.0@.subrange(9, 45)),
{
    let u = random_uuid();
    let id = completion_id(u.as_str());
    proof {
        reveal_strlit("chatcmpl-");
        assert(id@.subrange(0, 9) =~= "chatcmpl-"@);
        assert(id@.subrange(9, 45) =~= u@);
    }
    (id, unix_time())
}

/// The full response to a generation: one assistant choice that stopped.
pub fn completion_response(
    id: String,
    created: i64,
    model: String,
    text: String,
    prompt_tokens: u32,
    completion_tokens: u32,
) -> (r: GenerationResponse)
    requires
        prompt_tokens + completion_tokens <= u32::MAX,
    ensures
        r.id@ == id@,
        r.object@ == "chat.completion"@,
        r.created == created,
        r.model@ == model@,
        r.choices@.len() == 1,
        r.choices@[0].index == 0,
        r.choices@[0].message.role == Role::Assistant,
        r.choices@[0].message.content@ == text@,
        opt_str(r.choices@[0].finish_reason) == Some("stop"@),
        r.usage.prompt_tokens == prompt_tokens,
        r.usage.completion_tokens == completion_tokens,
        r.usage.total_tokens == prompt_tokens + completion_tokens,
{
    let mut choices: Vec<Choice> = Vec::new();
    choices.push(
        Choice {
            index: 0,
            message: Message { role: Role::Assistant, content: text },
            finish_reason: Some(owned("stop")),
        },
    );
    GenerationResponse {
        id,
        object: owned("chat.completion"),
        created,
        model,
        choices,
        usage: Usage {
            prompt_tokens,
            completion_tokens,
            total_tokens: prompt_tokens + completion_tokens,
        },
    }
}

/// One streamed chunk with a single choice.
pub open spec fn chunk_is(
    c: StreamChunk,
    id: Seq<char>,
    created: i64,
    model: Seq<char>,
    role: Option<Role>,
    content: Option<Seq<char>>,
    finish: Option<Seq<char>>,
) -> bool {
    &&& c.id@ == id
    &&& c.object@ == "chat.completion.chunk"@
    &&& c.created == created
    &&& c.model@ == model
    &&& c.choices@.len() == 1
    &&& c.choices@[0].index == 0
    &&& c.choices@[0].delta.role == role
    &&& opt_str(c.choices@[0].delta.content) == content
    &&& opt_str(c.choices@[0].finish_reason) == finish
}

fn chunk(
    id: &str,
    created: i64,
    model: &str,
    role: Option<Role>,
    content: Option<String>,
    finish: Option<String>,
) -> (r: StreamChunk)
    ensures
        chunk_is(r, id@, created, model@, role, opt_str(content), opt_str(finish)),
{
    let mut choices: Vec<StreamChoice> = Vec::new();
    choices.push(StreamChoice { index: 0, delta: Delta { role, content }, finish_reason: finish });
    StreamChunk { id: owned(id), object: owned("chat.completion.chunk"), created, model: owned(model), choices }
}

/// The first streamed chunk: the assistant role, no content yet.
pub fn role_chunk(id: &str, created: i64, model: &str) -> (r: StreamChunk)
    ensures
        chunk_is(r, id@, created, model@, Some(Role::Assistant), None, None),
{
    chunk(id, created, model, Some(Role::Assistant), None, None)
}

/// A streamed chunk carrying new text.
pub fn content_chunk(id: &str, created: i64, model: &str, text: String) -> (r: StreamChunk)
    ensures
        chunk_is(r, id@, created, model@, None, Some(text@), None),
{
    chunk(id, created, model, None, Some(text), None)
}

/// The last streamed chunk: no content, finished by `stop`.
pub fn final_chunk(id: &str, created: i64, model: &str) -> (r: StreamChunk)
    ensures
        chunk_is(r, id@, created, model@, None, None, Some("stop"@)),
{
    chunk(id, created, model, None, None, Some(owned("stop")))
}

/// The single chunk that stands for a whole response (a backend without true
/// streaming): the first choice's text, or empty.
pub fn whole_response_chunk(response: &GenerationResponse) -> (r: StreamChunk)
    ensures
        chunk_is(
            r,
            response.id@,
            response.created,
            response.model@,
            Some(Role::Assistant),
            Some(
                if response.choices@.len() > 0 {
                    response.choices@[0].message.content@
                } else {
                    seq![]
                },
            ),
            Some("stop"@),
        ),
{
    let content = if response.choices.len() > 0 {
        response.choices[0].message.content.clone()
    } else {
        String::new()
    };
    chunk(
        response.id.as_str(),
        response.created,
        response.model.as_str(),
        Some(Role::Assistant),
        Some(content),
        Some(owned("stop")),
    )
}

/// The value of a [`TokenRun`].
pub struct TokenRunView {
    pub generated: Seq<u32>,
    pub max_tokens: u32,
    pub done: bool,
}

/// The token loop of a generation: tokens are taken one by one until the
/// end-of-sequence token comes or `max_tokens` have been taken.
pub struct TokenRun {
    generated: Vec<u32>,
    max_tokens: u32,
    done: bool,
}

impl View for TokenRun {
    type V = TokenRunView;

    closed spec fn view(&self) -> TokenRunView {
        TokenRunView { generated: self.generated@, max_tokens: self.max_tokens, done: self.done }
    }
}

impl TokenRun {
    #[verifier::type_invariant]
    closed spec fn inv(self) -> bool {
        &&& self.generated@.len() <= self.max_tokens
        &&& !self.done ==> self.generated@.len() < self.max_tokens
    }

    /// A run that has taken nothing yet; with `max_tokens` 0 it is already
    /// over.
    pub fn new(max_tokens: u32) -> (r: TokenRun)
        ensures
            r@.generated == Seq::<u32>::empty(),
            r@.max_tokens == max_tokens,
            r@.done == (max_tokens == 0),
    {
        TokenRun { generated: Vec::new(), max_tokens, done: max_tokens == 0 }
    }

    /// Whether the run is over.
    pub fn is_done(&self) -> (r: bool)
        ensures
            r == self@.done,
    {
        self.done
    }

    /// The step number of the next token: how many tokens were taken.
    pub fn step(&self) -> (r: usize)
        ensures
            r == self@.generated.len(),
    {
        self.generated.len()
    }

    /// Takes the next sampled token: the end-of-sequence token ends the run
    /// and is not kept; any other token is kept, and the run ends when it
    /// makes `max_tokens`.
    pub fn take(&mut self, next: u32, eos: Option<u32>)
        requires
            !old(self)@.done,
        ensures
            final(self)@.max_tokens == old(self)@.max_tokens,
            eos == Some(next) ==> final(self)@.generated == old(self)@.generated && final(self)@.done,
            eos != Some(next) ==> final(self)@.generated == old(self)@.generated.push(next)
                && final(self)@.done == (final(self)@.generated.len() == old(self)@.max_tokens),
            final(self)@.generated.len() <= final(self)@.max_tokens,
    {
        proof {
            use_type_invariant(&*self);
        }
        if eos == Some(next) {
            self.done = true;
            return;
        }
        let mut g: Vec<u32> = Vec::new();
        std::mem::swap(&mut g, &mut self.generated);
        g.push(next);
        self.done = g.len() == self.max_tokens as usize;
        self.generated = g;
        proof {
            use_type_invariant(&*self);
        }
    }

    /// The tokens taken so far.
    pub fn generated(&self) -> (r: &Vec<u32>)
        ensures
            r@ == self@.generated,
    {
        &self.generated
    }

    /// How many tokens were taken, as the usage count reports it.
    pub fn completion_tokens(&self) -> (r: u32)
        ensures
            r == self@.generated.len(),
    {
        proof {
            use_type_invariant(&*self);
        }
        self.generated.len() as u32
    }
}

/// The text a stream has not sent yet: the bytes of `full` after the first
/// `sent` bytes, when there are any.
pub fn stream_delta(full: &str, sent: usize) -> (r: Option<String>)
    requires
        full.spec_bytes().len() <= usize::MAX,
        sent < full.spec_bytes().len() ==> is_char_boundary(full.spec_bytes(), sent as int),
    ensures
        r is Some <==> full.spec_bytes().len() > sent,
        r matches Some(t) ==> encode_utf8(t@) == full.spec_bytes().subrange(
            sent as int,
            full.spec_bytes().len() as int,
        ),
{
    if full.len() > sent {
        let (_, tail) = full.split_at(sent);
        Some(tail.to_owned())
    } else {
        None
    }
}

/// What a backend reports of a model it holds.
pub fn backend_model_info(model_id: &str, file_size: u64, backend: &str) -> (r: ModelInfo)
    ensures
        r.id@ == model_id@,
        r.object@ == "model"@,
        r.created == 0,
        r.owned_by@ == "local"@,
        r.architecture is None,
        opt_str(r.quantization) == Some("GGUF"@),
        r.parameters is None,
        r.file_size == Some(file_size),
        r.vram_usage == Some(file_size),
        r.loaded,
        opt_str(r.backend) == Some(backend@),
        r.compatible_backends@.map_values(|s: String| s@) == seq![backend@],
{
    let mut compat: Vec<String> = Vec::new();
    compat.push(owned(backend));
    assert(compat@.map_values(|s: String| s@) =~= seq![backend@]);
    ModelInfo {
        id: owned(model_id),
        object: owned("model"),
        created: 0,
        owned_by: owned("local"),
        architecture: None,
        quantization: Some(owned("GGUF")),
        parameters: None,
        file_size: Some(file_size),
        vram_usage: Some(file_size),
        loaded: true,
        backend: Some(owned(backend)),
        compatible_backends: compat,
    }
}


// ---------------------------------------------------------------------------
// Streaming
// ---------------------------------------------------------------------------

/// How many bytes of the decoded text a stream has sent after each decode:
/// it only grows, when the text got longer.
pub open spec fn sent_len(texts: Seq<Seq<u8>>) -> nat
    decreases texts.len(),
{
    if texts.len() == 0 {
        0
    } else {
        let p = sent_len(texts.drop_last());
        if texts.last().len() > p {
            texts.last().len()
        } else {
            p
        }
    }
}

/// The bytes a stream emitted: after each decode, what `stream_delta` gives
/// past the bytes already sent.
pub open spec fn emitted(texts: Seq<Seq<u8>>) -> Seq<u8>
    decreases texts.len(),
{
    if texts.len() == 0 {
        seq![]
    } else {
        let p = sent_len(texts.drop_last());
        let t = texts.last();
        if t.len() > p {
            emitted(texts.drop_last()) + t.subrange(p as int, t.len() as int)
        } else {
            emitted(texts.drop_last())
        }
    }
}

/// Each decode extends the one before it.
pub open spec fn grows_by_prefix(texts: Seq<Seq<u8>>) -> bool {
    forall|i: int| 0 <= i < texts.len() - 1 ==> #[trigger] texts[i].is_prefix_of(texts[i + 1])
}

/// When every decode of the generated tokens extends the previous one, the
/// streamed deltas put together are exactly the last decoded text.
pub proof fn lemma_stream_concatenation(texts: Seq<Seq<u8>>)
    requires
        texts.len() > 0,
        grows_by_prefix(texts),
    ensures
        emitted(texts) == texts.last(),
        sent_len(texts) == texts.last().len(),
    decreases texts.len(),
{
    let p = texts.drop_last();
    if p.len() > 0 {
        assert(grows_by_prefix(p)) by {
            assert forall|i: int| 0 <= i < p.len() - 1 implies #[trigger] p[i].is_prefix_of(p[i + 1]) by {
                assert(texts[i].is_prefix_of(texts[i + 1]));
            }
        }
        lemma_stream_concatenation(p);
        let n = texts.len() - 2;
        let prev = texts[n];
        let t = texts.last();
        assert(texts[n].is_prefix_of(texts[n + 1]));
        assert(texts[n + 1] == t);
        assert(p.last() == prev);
        assert(sent_len(p) == prev.len());
        assert(emitted(p) == prev);
        assert(p.last() == prev);
        if t.len() > prev.len() {
            assert(prev + t.subrange(prev.len() as int, t.len() as int) =~= t);
            assert(emitted(texts) == emitted(p) + t.subrange(prev.len() as int, t.len() as int));
        } else {
            assert(t =~= prev);
            assert(emitted(texts) == emitted(p));
        }
    } else {
        let t = texts.last();
        assert(p =~= Seq::<Seq<u8>>::empty());
        assert(sent_len(p) == 0);
        assert(emitted(p) == Seq::<u8>::empty());
        if t.len() > 0 {
            assert(Seq::<u8>::empty() + t.subrange(0, t.len() as int) =~= t);
            assert(emitted(texts) == emitted(p) + t.subrange(0, t.len() as int));
        } else {
            assert(t =~= Seq::<u8>::empty());
        }
    }
}

/// The ChatML turn of one message.
pub open spec fn chatml_turn(role: Role, content: Seq<char>) -> Seq<char> {
    "<|im_start|>"@ + (match role {
        Role::System => "system"@,
        Role::User => "user"@,
        Role::Assistant => "assistant"@,
    }) + "\n"@ + content + "<|im_end|>\n"@
}

/// Every message contributes its own turn, in order, whatever its role: a
/// conversation's prompt is the turns of its messages one after another,
/// then the opened assistant turn; adding a message to the conversation adds
/// exactly its turn, and the turns of the earlier messages stay a prefix.
pub proof fn lemma_prompt_has_every_turn(ms: Seq<Message>, m: Message)
    ensures
        chatml_turns(seq![]) == Seq::<char>::empty(),
        chatml_turns(ms.push(m)) == chatml_turns(ms) + chatml_turn(m.role, m.content@),
        chatml_prompt(ms) == chatml_turns(ms) + "<|im_start|>assistant\n"@,
        chatml_prompt(ms.push(m)) == chatml_turns(ms) + chatml_turn(m.role, m.content@)
            + "<|im_start|>assistant\n"@,
{
    assert(ms.push(m).drop_last() =~= ms);
    assert(ms.push(m).last() == m);
    assert(chatml_turns(ms.push(m)) =~= chatml_turns(ms) + chatml_turn(m.role, m.content@));
}

/// A prompt holds the turn of every message at the place of that message:
/// the turns of the first `k` messages, then the turn of message `k`, then
/// the rest.
pub proof fn lemma_prompt_turn_at(ms: Seq<Message>, k: int)
    requires
        0 <= k < ms.len(),
    ensures
        chatml_turns(ms.take(k + 1)) == chatml_turns(ms.take(k)) + chatml_turn(ms[k].role, ms[k].content@),
        chatml_turns(ms).len() >= chatml_turns(ms.take(k + 1)).len(),
        chatml_turns(ms).subrange(0, chatml_turns(ms.take(k + 1)).len() as int) == chatml_turns(ms.take(k + 1)),
    decreases ms.len(),
{
    lemma_prompt_has_every_turn(ms.take(k), ms[k]);
    assert(ms.take(k).push(ms[k]) =~= ms.take(k + 1));
    if k + 1 < ms.len() {
        lemma_prompt_turn_at(ms.drop_last(), k);
        assert(ms.drop_last().take(k + 1) =~= ms.take(k + 1));
        assert(ms.drop_last().take(k) =~= ms.take(k));
        let a = chatml_turns(ms.drop_last());
        assert(chatml_turns(ms) == a + chatml_turn(ms.last().role, ms.last().content@));
        assert((a + chatml_turn(ms.last().role, ms.last().content@)).subrange(
            0,
            chatml_turns(ms.take(k + 1)).len() as int,
        ) =~= a.subrange(0, chatml_turns(ms.take(k + 1)).len() as int));
    } else {
        assert(ms.take(k + 1) =~= ms);
        assert(chatml_turns(ms).subrange(0, chatml_turns(ms).len() as int) =~= chatml_turns(ms));
    }
}

} // verus!
