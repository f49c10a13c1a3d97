//! HuggingFace Hub: the requests the library makes, the answers it keeps, and
//! where it looks for a tokenizer.
use vstd::prelude::*;
use vstd::string::*;

use crate::error::ZonkyError;
use crate::text::{
    chars_of, contains_char, decimal, decimal_exec, ends_with, ends_with_exec, extend_chars,
    extend_str, join, join_exec, lemma_pieces_push, lemma_split_nonempty, opt_str, owned, pieces,
    split, split_exec, starts_with, starts_with_exec, string_of, strip_prefix, strip_prefix_exec,
    strip_suffix, strip_suffix_exec, trim, trim_exec,
};
use crate::types::{HubModelDetail, HubSibling};

verus! {

broadcast use vstd::seq_lib::group_seq_properties;

pub open spec fn api_base() -> Seq<char> {
    "https://huggingface.co/api"@
}

/// The search request: GGUF models matching `query`, most downloaded first.
pub fn search_url(query: &str, limit: usize) -> (r: String)
    ensures
        r@ == api_base() + "/models?search="@ + query@ + "&limit="@ + decimal(limit as nat)
            + "&sort=downloads&direction=-1&filter=gguf"@,
{
    let mut v = chars_of("https://huggingface.co/api");
    extend_str(&mut v, "/models?search=");
    extend_str(&mut v, query);
    extend_str(&mut v, "&limit=");
    let d = decimal_exec(limit as u64);
    extend_chars(&mut v, &d);
    extend_str(&mut v, "&sort=downloads&direction=-1&filter=gguf");
    string_of(&v)
}

/// The model-detail request for a repo.
pub fn model_info_url(repo_id: &str) -> (r: String)
    ensures
        r@ == api_base() + "/models/"@ + repo_id@,
{
    let mut v = chars_of("https://huggingface.co/api");
    extend_str(&mut v, "/models/");
    extend_str(&mut v, repo_id);
    string_of(&v)
}

/// The file-tree request for a repo's main branch.
pub fn tree_url(repo_id: &str) -> (r: String)
    ensures
        r@ == api_base() + "/models/"@ + repo_id@ + "/tree/main"@,
{
    let mut v = chars_of("https://huggingface.co/api");
    extend_str(&mut v, "/models/");
    extend_str(&mut v, repo_id);
    extend_str(&mut v, "/tree/main");
    string_of(&v)
}

/// Where a repo's file is downloaded from.
pub fn download_url(repo_id: &str, filename: &str) -> (r: String)
    ensures
        r@ == "https://huggingface.co/"@ + repo_id@ + "/resolve/main/"@ + filename@,
{
    let mut v = chars_of("https://huggingface.co/");
    extend_str(&mut v, repo_id);
    extend_str(&mut v, "/resolve/main/");
    extend_str(&mut v, filename);
    string_of(&v)
}

/// One entry of the repo file tree.
#[derive(Debug, Clone)]
pub struct TreeEntry {
    pub path: String,
    pub size: Option<u64>,
    pub entry_type: Option<String>,
}

pub struct SiblingView {
    pub filename: Seq<char>,
    pub size: Option<u64>,
}

impl View for HubSibling {
    type V = SiblingView;

    open spec fn view(&self) -> SiblingView {
        SiblingView { filename: self.filename@, size: self.size }
    }
}

pub open spec fn sibling_views(v: Seq<HubSibling>) -> Seq<SiblingView> {
    v.map_values(|s: HubSibling| s@)
}

/// The GGUF files of a tree: file entries whose path ends in `.gguf`.
pub open spec fn gguf_of_tree(t: Seq<TreeEntry>) -> Seq<SiblingView>
    decreases t.len(),
{
    if t.len() == 0 {
        seq![]
    } else {
        let prev = gguf_of_tree(t.drop_last());
        let e = t.last();
        if opt_str(e.entry_type) == Some("file"@) && ends_with(e.path@, ".gguf"@) {
            prev.push(SiblingView { filename: e.path@, size: e.size })
        } else {
            prev
        }
    }
}

/// The GGUF files listed in a repo tree (`list_gguf_files`).
pub fn gguf_files(tree: &Vec<TreeEntry>) -> (r: Vec<HubSibling>)
    ensures
        sibling_views(r@) == gguf_of_tree(tree@),
{
    let file = chars_of("file");
    let ext = chars_of(".gguf");
    let mut out: Vec<HubSibling> = Vec::new();
    let mut i: usize = 0;
    while i < tree.len()
        invariant
            i <= tree.len(),
            file@ == "file"@,
            ext@ == ".gguf"@,
            sibling_views(out@) == gguf_of_tree(tree@.subrange(0, i as int)),
        decreases tree.len() - i,
    {
        assert(tree@.subrange(0, i + 1).drop_last() =~= tree@.subrange(0, i as int));
        let e = &tree[i];
        let is_file = match &e.entry_type {
            Some(t) => {
                let tv = chars_of(t.as_str());
                crate::text::eq_chars(&tv, &file)
            },
            None => false,
        };
        let pv = chars_of(e.path.as_str());
        if is_file && ends_with_exec(&pv, &ext) {
            let s = HubSibling { filename: e.path.clone(), size: e.size };
            let ghost before = out@;
            out.push(s);
            assert(sibling_views(out@) =~= sibling_views(before).push(s@));
        }
        i = i + 1;
    }
    assert(tree@.subrange(0, tree@.len() as int) =~= tree@);
    out
}

/// The GGUF files among a model's siblings.
pub open spec fn gguf_of_siblings(s: Seq<SiblingView>) -> Seq<SiblingView>
    decreases s.len(),
{
    if s.len() == 0 {
        seq![]
    } else if ends_with(s.last().filename, ".gguf"@) {
        gguf_of_siblings(s.drop_last()).push(s.last())
    } else {
        gguf_of_siblings(s.drop_last())
    }
}

/// The siblings of a model detail whose name ends in `.gguf`.
pub fn gguf_siblings(detail: &HubModelDetail) -> (r: Vec<HubSibling>)
    ensures
        sibling_views(r@) == gguf_of_siblings(sibling_views(detail.siblings@)),
{
    let ext = chars_of(".gguf");
    let mut out: Vec<HubSibling> = Vec::new();
    let mut i: usize = 0;
    while i < detail.siblings.len()
        invariant
            i <= detail.siblings.len(),
            ext@ == ".gguf"@,
            sibling_views(out@) == gguf_of_siblings(
                sibling_views(detail.siblings@.subrange(0, i as int)),
            ),
        decreases detail.siblings.len() - i,
    {
        let ghost pre = sibling_views(detail.siblings@.subrange(0, i as int));
        assert(sibling_views(detail.siblings@.subrange(0, i + 1)) =~= pre.push(
            detail.siblings@[i as int]@,
        ));
        assert(pre.push(detail.siblings@[i as int]@).drop_last() =~= pre);
        let s = &detail.siblings[i];
        let fv = chars_of(s.filename.as_str());
        if ends_with_exec(&fv, &ext) {
            let c = HubSibling { filename: s.filename.clone(), size: s.size };
            let ghost before = out@;
            out.push(c);
            assert(sibling_views(out@) =~= sibling_views(before).push(c@));
        }
        i = i + 1;
    }
    assert(detail.siblings@.subrange(0, detail.siblings@.len() as int) =~= detail.siblings@);
    out
}

// ---------------------------------------------------------------------------
// Tokenizer sources
// ---------------------------------------------------------------------------

/// The repo name (text after the first `/`), or empty.
pub open spec fn repo_name(repo_id: Seq<char>) -> Seq<char> {
    let parts = split(repo_id, "/"@);
    if parts.len() > 1 {
        parts[1]
    } else {
        seq![]
    }
}

/// A GGUF repo, named `<author>/<model>-GGUF`.
pub open spec fn is_gguf_repo_of(repo_id: Seq<char>) -> bool {
    ends_with(repo_name(repo_id), "-GGUF"@)
}

fn repo_name_exec(repo_id: &Vec<char>) -> (r: Vec<char>)
    ensures
        r@ == repo_name(repo_id@),
{
    let slash = chars_of("/");
    proof {
        reveal_strlit("/");
    }
    let parts = split_exec(repo_id, &slash);
    if parts.len() > 1 {
        assert(pieces(&parts)[1] == parts@[1]@);
        parts[1].clone()
    } else {
        Vec::new()
    }
}

/// Whether a repo holds GGUF conversions, whose tokenizer usually lives in
/// the base model's repo.
pub fn is_gguf_repo(repo_id: &str) -> (r: bool)
    ensures
        r == is_gguf_repo_of(repo_id@),
{
    let rv = chars_of(repo_id);
    let name = repo_name_exec(&rv);
    let suffix = chars_of("-GGUF");
    ends_with_exec(&name, &suffix)
}

/// Candidate repos named by a tag `base_model:<author>/<name>` (not
/// `base_model:quantized:…`): the `unsloth` mirror of the name, then the base
/// repo itself.
pub open spec fn tag_candidates(tag: Seq<char>) -> Seq<Seq<char>> {
    match strip_prefix(tag, "base_model:"@) {
        Some(rest) => if !starts_with(rest, "quantized:"@) && rest.contains('/') {
            let base = trim(rest);
            let parts = split(base, "/"@);
            if parts.len() > 1 {
                seq!["unsloth/"@ + parts[1], base]
            } else {
                seq![base]
            }
        } else {
            seq![]
        },
        None => seq![],
    }
}

pub open spec fn tags_candidates(tags: Seq<String>) -> Seq<Seq<char>>
    decreases tags.len(),
{
    if tags.len() == 0 {
        seq![]
    } else {
        tags_candidates(tags.drop_last()) + tag_candidates(tags.last()@)
    }
}

/// The repos searched for `tokenizer.json`, in order: the repo itself; for a
/// GGUF repo also `<author>/<model without -GGUF>` and, when the repo's tags
/// were fetched, the base models they name.
pub open spec fn tokenizer_candidates_of(repo_id: Seq<char>, tags: Option<Seq<String>>) -> Seq<
    Seq<char>,
> {
    let name = repo_name(repo_id);
    if ends_with(name, "-GGUF"@) {
        let base = strip_suffix(name, "-GGUF"@)->0;
        let author = split(repo_id, "/"@)[0];
        let with_base = seq![repo_id, author + "/"@ + base];
        match tags {
            Some(t) => with_base + tags_candidates(t),
            None => with_base,
        }
    } else {
        seq![repo_id]
    }
}

fn push_piece(v: &mut Vec<Vec<char>>, x: Vec<char>)
    ensures
        pieces(final(v)) == pieces(old(v)).push(x@),
{
    let ghost before = v@;
    v.push(x);
    proof {
        lemma_pieces_push(before, v@, x);
    }
}

fn tag_candidates_exec(tag: &Vec<char>, out: &mut Vec<Vec<char>>)
    ensures
        pieces(final(out)) == pieces(old(out)) + tag_candidates(tag@),
{
    let prefix = chars_of("base_model:");
    let quant = chars_of("quantized:");
    let slash = chars_of("/");
    proof {
        reveal_strlit("/");
    }
    match strip_prefix_exec(tag, &prefix) {
        Some(rest) => {
            if !starts_with_exec(&rest, &quant) && contains_char(&rest, '/') {
                let base = trim_exec(&rest);
                let parts = split_exec(&base, &slash);
                if parts.len() > 1 {
                    assert(pieces(&parts)[1] == parts@[1]@);
                    let mut m = chars_of("unsloth/");
                    extend_chars(&mut m, &parts[1]);
                    push_piece(out, m);
                }
                push_piece(out, base);
            }
        },
        None => {},
    }
    assert(pieces(out) =~= pieces(old(out)) + tag_candidates(tag@));
}

/// `download_tokenizer`'s candidate repos, in the order they are tried.
pub fn tokenizer_candidates(repo_id: &str, tags: Option<&Vec<String>>) -> (r: Vec<String>)
    ensures
        r@.map_values(|s: String| s@) == tokenizer_candidates_of(
            repo_id@,
            match tags {
                Some(t) => Some(t@),
                None => None,
            },
        ),
{
    let rv = chars_of(repo_id);
    let mut out: Vec<Vec<char>> = Vec::new();
    push_piece(&mut out, rv.clone());
    let name = repo_name_exec(&rv);
    let suffix = chars_of("-GGUF");
    let slash = chars_of("/");
    proof {
        reveal_strlit("/");
    }
    match strip_suffix_exec(&name, &suffix) {
        Some(base) => {
            let parts = split_exec(&rv, &slash);
            proof {
                lemma_split_nonempty(rv@, slash@);
            }
            assert(pieces(&parts)[0] == parts@[0]@);
            let mut c = parts[0].clone();
            extend_chars(&mut c, &slash);
            extend_chars(&mut c, &base);
            push_piece(&mut out, c);
            match tags {
                Some(t) => {
                    let ghost head = pieces(&out);
                    let mut i: usize = 0;
                    while i < t.len()
                        invariant
                            i <= t.len(),
                            pieces(&out) == head + tags_candidates(t@.subrange(0, i as int)),
                        decreases t.len() - i,
                    {
                        assert(t@.subrange(0, i + 1).drop_last() =~= t@.subrange(0, i as int));
                        let tv = chars_of(t[i].as_str());
                        tag_candidates_exec(&tv, &mut out);
                        i = i + 1;
                    }
                    assert(t@.subrange(0, t@.len() as int) =~= t@);
                },
                None => {},
            }
        },
        None => {},
    }
    let mut r: Vec<String> = Vec::new();
    let mut k: usize = 0;
    while k < out.len()
        invariant
            k <= out.len(),
            r@.map_values(|s: String| s@) == pieces(&out).subrange(0, k as int),
        decreases out.len() - k,
    {
        let s = string_of(&out[k]);
        let ghost before = r@;
        r.push(s);
        assert(r@.map_values(|s: String| s@) =~= before.map_values(|s: String| s@).push(s@));
        assert(pieces(&out).subrange(0, k + 1) =~= pieces(&out).subrange(0, k as int).push(
            out@[k as int]@,
        ));
        k = k + 1;
    }
    assert(pieces(&out).subrange(0, out@.len() as int) =~= pieces(&out));
    r
}

/// Where a candidate repo's tokenizer is fetched from.
pub fn tokenizer_url(candidate: &str) -> (r: String)
    ensures
        r@ == "https://huggingface.co/"@ + candidate@ + "/resolve/main/tokenizer.json"@,
{
    let mut v = chars_of("https://huggingface.co/");
    extend_str(&mut v, candidate);
    extend_str(&mut v, "/resolve/main/tokenizer.json");
    string_of(&v)
}

/// The error when no candidate repo has a tokenizer.
pub fn tokenizer_not_found(candidates: &Vec<String>) -> (r: ZonkyError)
    ensures
        r matches ZonkyError::DownloadError(m) && m@ == "tokenizer.json not found in any of: "@
            + join(candidates@.map_values(|s: String| s@), ", "@),
{
    let mut ps: Vec<Vec<char>> = Vec::new();
    let mut i: usize = 0;
    while i < candidates.len()
        invariant
            i <= candidates.len(),
            pieces(&ps) == candidates@.subrange(0, i as int).map_values(|s: String| s@),
        decreases candidates.len() - i,
    {
        let c = chars_of(candidates[i].as_str());
        push_piece(&mut ps, c);
        assert(candidates@.subrange(0, i + 1).map_values(|s: String| s@) =~= candidates@.subrange(
            0,
            i as int,
        ).map_values(|s: String| s@).push(candidates@[i as int]@));
        i = i + 1;
    }
    assert(candidates@.subrange(0, candidates@.len() as int) =~= candidates@);
    let sep = chars_of(", ");
    let j = join_exec(&ps, &sep);
    let mut m = chars_of("tokenizer.json not found in any of: ");
    extend_chars(&mut m, &j);
    ZonkyError::DownloadError(string_of(&m))
}

// ---------------------------------------------------------------------------
// Authentication
// ---------------------------------------------------------------------------

/// The token used for hub requests: `HF_TOKEN`, else
/// `HUGGING_FACE_HUB_TOKEN`, else the trimmed cached token file, skipping
/// empty values.
pub open spec fn hf_token_of(
    env_token: Option<Seq<char>>,
    env_legacy: Option<Seq<char>>,
    cached: Option<Seq<char>>,
) -> Option<Seq<char>> {
    match env_token {
        Some(t) if t.len() > 0 => Some(t),
        _ => match env_legacy {
            Some(t) if t.len() > 0 => Some(t),
            _ => match cached {
                Some(c) if trim(c).len() > 0 => Some(trim(c)),
                _ => None,
            },
        },
    }
}

/// `resolve_hf_token`, given the two environment variables and the contents
/// of the cached token file.
pub fn resolve_hf_token(env_token: Option<String>, env_legacy: Option<String>, cached: Option<String>) -> (r:
    Option<String>)
    ensures
        opt_str(r) == hf_token_of(opt_str(env_token), opt_str(env_legacy), opt_str(cached)),
{
    match env_token {
        Some(t) => {
            if t.as_str().unicode_len() > 0 {
                return Some(t);
            }
        },
        None => {},
    }
    match env_legacy {
        Some(t) => {
            if t.as_str().unicode_len() > 0 {
                return Some(t);
            }
        },
        None => {},
    }
    match cached {
        Some(c) => {
            let cv = chars_of(c.as_str());
            let t = trim_exec(&cv);
            if t.len() > 0 {
                Some(string_of(&t))
            } else {
                None
            }
        },
        None => None,
    }
}

/// The `Authorization` header value for a token.
pub fn bearer(token: &str) -> (r: String)
    ensures
        r@ == "Bearer "@ + token@,
{
    let mut v = chars_of("Bearer ");
    extend_str(&mut v, token);
    string_of(&v)
}

} // verus!
