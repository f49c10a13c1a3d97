//! The local model cache: where downloaded files live and the registry that
//! records them.
use vstd::prelude::*;
use vstd::string::*;

use crate::error::ZonkyError;
use crate::text::{
    lemma_next_match, matches_at, next_match, split_from,
    chars_of, clone_opt, contains, contains_exec, ends_with, eq_chars, lowercase, opt_str, owned,
    path_join, path_join_exec, replace_all, replace_all_exec, split, split_exec, starts_with,
    starts_with_exec, string_of, strip_suffix, strip_suffix_exec, slice, extend_chars, to_lowercase, to_uppercase,
    uppercase, lemma_split_nonempty, pieces,
};
use crate::inference::last_index_of;
use crate::types::LocalModel;

verus! {

broadcast use vstd::seq_lib::group_seq_properties;

/// The value of a [`LocalModel`].
pub struct ModelEntry {
    pub id: Seq<char>,
    pub repo_id: Seq<char>,
    pub filename: Seq<char>,
    pub path: Seq<char>,
    pub file_size: u64,
    pub alias: Option<Seq<char>>,
    pub quantization: Option<Seq<char>>,
    pub architecture: Option<Seq<char>>,
    pub downloaded_at: Seq<char>,
}

impl View for LocalModel {
    type V = ModelEntry;

    open spec fn view(&self) -> ModelEntry {
        ModelEntry {
            id: self.id@,
            repo_id: self.repo_id@,
            filename: self.filename@,
            path: self.path@,
            file_size: self.file_size,
            alias: opt_str(self.alias),
            quantization: opt_str(self.quantization),
            architecture: opt_str(self.architecture),
            downloaded_at: self.downloaded_at@,
        }
    }
}

impl LocalModel {
    /// A copy of the entry.
    pub fn duplicate(&self) -> (r: LocalModel)
        ensures
            r@ == self@,
    {
        LocalModel {
            id: self.id.clone(),
            repo_id: self.repo_id.clone(),
            filename: self.filename.clone(),
            path: self.path.clone(),
            file_size: self.file_size,
            alias: clone_opt(&self.alias),
            quantization: clone_opt(&self.quantization),
            architecture: clone_opt(&self.architecture),
            downloaded_at: self.downloaded_at.clone(),
        }
    }
}

pub open spec fn opt_entry(r: Option<LocalModel>) -> Option<ModelEntry> {
    match r {
        Some(m) => Some(m@),
        None => None,
    }
}

/// Registry of locally cached models (the contents of `registry.json`).
#[derive(Debug, Clone)]
pub struct Registry {
    pub models: Vec<LocalModel>,
}

pub open spec fn entries(v: Seq<LocalModel>) -> Seq<ModelEntry> {
    v.map_values(|m: LocalModel| m@)
}

impl View for Registry {
    type V = Seq<ModelEntry>;

    open spec fn view(&self) -> Seq<ModelEntry> {
        entries(self.models@)
    }
}

impl Registry {
    /// A registry with no models.
    pub fn empty() -> (r: Registry)
        ensures
            r@ == Seq::<ModelEntry>::empty(),
    {
        let r = Registry { models: Vec::new() };
        assert(r@ =~= Seq::<ModelEntry>::empty());
        r
    }
}

// ---------------------------------------------------------------------------
// Registry searches
// ---------------------------------------------------------------------------

/// Index of the first entry at or after `i` satisfying the lookup `key`.
pub open spec fn matches_key(m: ModelEntry, key: LookupKey) -> bool {
    match key {
        LookupKey::RepoFile(repo, file) => m.repo_id == repo && m.filename == file,
        LookupKey::IdOrAlias(q) => m.id == q || m.alias == Some(q) || m.repo_id == q,
        LookupKey::Id(id) => m.id == id,
    }
}

/// What a registry search looks for.
pub enum LookupKey {
    RepoFile(Seq<char>, Seq<char>),
    IdOrAlias(Seq<char>),
    Id(Seq<char>),
}

pub open spec fn first_match(ms: Seq<ModelEntry>, key: LookupKey, i: int) -> int
    decreases ms.len() - i,
{
    if i < 0 || i >= ms.len() {
        ms.len() as int
    } else if matches_key(ms[i], key) {
        i
    } else {
        first_match(ms, key, i + 1)
    }
}

pub proof fn lemma_first_match(ms: Seq<ModelEntry>, key: LookupKey, i: int)
    requires
        0 <= i <= ms.len(),
    ensures
        i <= first_match(ms, key, i) <= ms.len(),
        first_match(ms, key, i) < ms.len() ==> matches_key(ms[first_match(ms, key, i)], key),
        forall|k: int| i <= k < first_match(ms, key, i) ==> !matches_key(ms[k], key),
    decreases ms.len() - i,
{
    if i < ms.len() && !matches_key(ms[i], key) {
        lemma_first_match(ms, key, i + 1);
    }
}

/// The first entry satisfying `key`.
pub open spec fn find_entry(ms: Seq<ModelEntry>, key: LookupKey) -> Option<ModelEntry> {
    let j = first_match(ms, key, 0);
    if j < ms.len() {
        Some(ms[j])
    } else {
        None
    }
}

fn key_matches(m: &LocalModel, key: &ExecKey) -> (r: bool)
    ensures
        r == matches_key(m@, key@),
{
    match key {
        ExecKey::RepoFile(repo, file) => {
            let a = chars_of(m.repo_id.as_str());
            let b = chars_of(m.filename.as_str());
            eq_chars(&a, repo) && eq_chars(&b, file)
        },
        ExecKey::IdOrAlias(q) => {
            let a = chars_of(m.id.as_str());
            if eq_chars(&a, q) {
                return true;
            }
            let alias_hit = match &m.alias {
                Some(al) => {
                    let b = chars_of(al.as_str());
                    eq_chars(&b, q)
                },
                None => false,
            };
            if alias_hit {
                return true;
            }
            let c = chars_of(m.repo_id.as_str());
            eq_chars(&c, q)
        },
        ExecKey::Id(id) => {
            let a = chars_of(m.id.as_str());
            eq_chars(&a, id)
        },
    }
}

/// Executable form of a [`LookupKey`].
pub enum ExecKey {
    RepoFile(Vec<char>, Vec<char>),
    IdOrAlias(Vec<char>),
    Id(Vec<char>),
}

impl View for ExecKey {
    type V = LookupKey;

    open spec fn view(&self) -> LookupKey {
        match self {
            ExecKey::RepoFile(a, b) => LookupKey::RepoFile(a@, b@),
            ExecKey::IdOrAlias(q) => LookupKey::IdOrAlias(q@),
            ExecKey::Id(q) => LookupKey::Id(q@),
        }
    }
}

fn first_match_exec(models: &Vec<LocalModel>, key: &ExecKey) -> (j: usize)
    ensures
        j == first_match(entries(models@), key@, 0),
{
    let mut i: usize = 0;
    while i < models.len()
        invariant
            i <= models.len(),
            first_match(entries(models@), key@, 0) == first_match(entries(models@), key@, i as int),
        decreases models.len() - i,
    {
        assert(entries(models@)[i as int] == models@[i as int]@);
        if key_matches(&models[i], key) {
            return i;
        }
        i = i + 1;
    }
    i
}

fn find_exec(models: &Vec<LocalModel>, key: &ExecKey) -> (r: Option<LocalModel>)
    ensures
        opt_entry(r) == find_entry(entries(models@), key@),
{
    let j = first_match_exec(models, key);
    if j < models.len() {
        assert(entries(models@)[j as int] == models@[j as int]@);
        Some(models[j].duplicate())
    } else {
        None
    }
}

/// The entries whose id is not `id`, in order.
pub open spec fn without_id(ms: Seq<ModelEntry>, id: Seq<char>) -> Seq<ModelEntry>
    decreases ms.len(),
{
    if ms.len() == 0 {
        seq![]
    } else if ms.last().id == id {
        without_id(ms.drop_last(), id)
    } else {
        without_id(ms.drop_last(), id).push(ms.last())
    }
}

fn remove_id(models: &mut Vec<LocalModel>, id: &Vec<char>)
    ensures
        entries(final(models)@) == without_id(entries(old(models)@), id@),
{
    let mut kept: Vec<LocalModel> = Vec::new();
    let mut i: usize = 0;
    while i < models.len()
        invariant
            i <= models.len(),
            models@ == old(models)@,
            entries(kept@) == without_id(entries(models@.subrange(0, i as int)), id@),
        decreases models.len() - i,
    {
        let ghost pre = models@.subrange(0, i as int);
        assert(entries(models@.subrange(0, i + 1)).drop_last() =~= entries(pre));
        assert(entries(models@.subrange(0, i + 1)).last() == models@[i as int]@);
        let mid = chars_of(models[i].id.as_str());
        if !eq_chars(&mid, id) {
            let m = models[i].duplicate();
            let ghost before = kept@;
            kept.push(m);
            assert(entries(kept@) =~= entries(before).push(m@));
        }
        i = i + 1;
    }
    assert(models@.subrange(0, models@.len() as int) =~= models@);
    *models = kept;
}

// ---------------------------------------------------------------------------
// Names derived from file names
// ---------------------------------------------------------------------------

/// The file name without a `.gguf` or `.safetensors` extension.
pub open spec fn model_stem(filename: Seq<char>) -> Seq<char> {
    match strip_suffix(filename, ".gguf"@) {
        Some(s) => s,
        None => match strip_suffix(filename, ".safetensors"@) {
            Some(s) => s,
            None => filename,
        },
    }
}

/// Whether a lower-cased name part reads as a quantization tag: it starts
/// with `q` or `iq`, or holds `k_m`, `k_s` or `k_l`.
pub open spec fn is_quant_tag(t: Seq<char>) -> bool {
    starts_with(t, "q"@) || starts_with(t, "iq"@) || contains(t, "k_m"@) || contains(t, "k_s"@)
        || contains(t, "k_l"@)
}

/// The local id of a model file: its stem, lower-cased. When the stem ends
/// in a quantization tag, the dot before the tag becomes `-` and the dots of
/// the model's name stay (`tinyllama-1.1b-chat-v1.0.Q4_K_M` gives
/// `tinyllama-1.1b-chat-v1.0-q4_k_m`); otherwise every dot becomes `-`.
pub open spec fn model_id_of(filename: Seq<char>) -> Seq<char> {
    let s = lowercase(model_stem(filename));
    let k = last_index_of(s, '.', s.len() as int);
    if k >= 0 && is_quant_tag(s.subrange(k + 1, s.len() as int)) {
        s.subrange(0, k) + "-"@ + s.subrange(k + 1, s.len() as int)
    } else {
        replace_all(s, "."@, "-"@)
    }
}

fn is_quant_tag_exec(t: &Vec<char>) -> (r: bool)
    ensures
        r == is_quant_tag(t@),
{
    let q = chars_of("q");
    let iq = chars_of("iq");
    let km = chars_of("k_m");
    let ks = chars_of("k_s");
    let kl = chars_of("k_l");
    starts_with_exec(t, &q) || starts_with_exec(t, &iq) || contains_exec(t, &km)
        || contains_exec(t, &ks) || contains_exec(t, &kl)
}

/// `generate_model_id`: a readable id from a model file name, e.g.
/// `tinyllama-1.1b-chat-v1.0.Q4_K_M.gguf` becomes
/// `tinyllama-1.1b-chat-v1.0-q4_k_m`, and `model.f16.gguf` becomes
/// `model-f16`.
pub fn generate_model_id(repo_id: &str, filename: &str) -> (r: String)
    ensures
        r@ == model_id_of(filename@),
{
    let f = chars_of(filename);
    let gguf = chars_of(".gguf");
    let st = chars_of(".safetensors");
    let stem = match strip_suffix_exec(&f, &gguf) {
        Some(s) => s,
        None => match strip_suffix_exec(&f, &st) {
            Some(s) => s,
            None => f,
        },
    };
    let stem_s = string_of(&stem);
    let lower = to_lowercase(stem_s.as_str());
    let lv = chars_of(lower.as_str());
    let mut n = lv.len();
    while n > 0 && lv[n - 1] != '.'
        invariant
            n <= lv.len(),
            last_index_of(lv@, '.', lv@.len() as int) == last_index_of(lv@, '.', n as int),
        decreases n,
    {
        n = n - 1;
    }
    assert(last_index_of(lv@, '.', lv@.len() as int) == n - 1);
    if n > 0 {
        let tail = slice(&lv, n, lv.len());
        if is_quant_tag_exec(&tail) {
            let mut out = slice(&lv, 0, n - 1);
            let dash = chars_of("-");
            proof {
                reveal_strlit("-");
            }
            extend_chars(&mut out, &dash);
            extend_chars(&mut out, &tail);
            return string_of(&out);
        }
    }
    let dot = chars_of(".");
    let dash = chars_of("-");
    proof {
        reveal_strlit(".");
    }
    let r = replace_all_exec(&lv, &dot, &dash);
    string_of(&r)
}

/// The quantization named by a `.gguf` file: the last dot-separated part of
/// its stem, upper-cased, when it looks like `Q…`, `IQ…` or contains `K_M`,
/// `K_S` or `K_L`.
pub open spec fn quantization_of(filename: Seq<char>) -> Option<Seq<char>> {
    let stem = match strip_suffix(filename, ".gguf"@) {
        Some(s) => s,
        None => filename,
    };
    let parts = split(stem, "."@);
    if parts.len() >= 2 {
        let q = uppercase(parts.last());
        if starts_with(q, "Q"@) || starts_with(q, "IQ"@) || contains(q, "K_M"@) || contains(
            q,
            "K_S"@,
        ) || contains(q, "K_L"@) {
            Some(q)
        } else {
            None
        }
    } else {
        None
    }
}

/// Splitting at `.` from position `i`: when the last `.` of `x` stands at
/// `m` and `i <= m`, there are at least two pieces and the last one is what
/// follows `m`; past `m` there is one piece.
proof fn lemma_split_dot_tail(x: Seq<char>, m: int, i: int)
    requires
        0 <= m < x.len(),
        x[m] == '.',
        forall|k: int| m < k < x.len() ==> x[k] != '.',
        0 <= i <= x.len(),
    ensures
        i <= m ==> split_from(x, "."@, i).len() >= 2 && split_from(x, "."@, i).last() == x.subrange(
            m + 1,
            x.len() as int,
        ),
        i > m ==> split_from(x, "."@, i) == seq![x.subrange(i, x.len() as int)],
    decreases x.len() - i,
{
    reveal_strlit(".");
    let sep = "."@;
    assert(sep.len() == 1);
    lemma_next_match(x, sep, i);
    let j = next_match(x, sep, i);
    if i <= m {
        assert(x.subrange(m, m + 1) =~= sep);
        assert(matches_at(x, sep, m));
        assert(j <= m);
        assert(j < x.len());
        lemma_split_dot_tail(x, m, j + 1);
        let rest = split_from(x, sep, j + 1);
        assert(split_from(x, sep, i) == seq![x.subrange(i, j)] + rest);
        if j == m {
            assert(rest == seq![x.subrange(m + 1, x.len() as int)]);
        }
    } else {
        if j < x.len() {
            assert(matches_at(x, sep, j));
            assert(x.subrange(j, j + 1)[0] == x[j]);
            assert(sep[0] == '.');
        }
    }
}

/// The quantization comes from the last dot-separated part of the name: for
/// any name `s` followed by `.q.gguf`, where `q` holds no dot, the
/// quantization is `q` upper-cased when that reads as a quantization tag
/// (`Q…`, `IQ…`, or holding `K_M`, `K_S`, `K_L`), and none otherwise;
/// whatever dots `s` itself holds.
pub proof fn lemma_quantization_is_last_part(s: Seq<char>, q: Seq<char>)
    requires
        forall|k: int| 0 <= k < q.len() ==> q[k] != '.',
    ensures
        ({
            let u = uppercase(q);
            quantization_of(s + "."@ + q + ".gguf"@) == if starts_with(u, "Q"@) || starts_with(u, "IQ"@)
                || contains(u, "K_M"@) || contains(u, "K_S"@) || contains(u, "K_L"@) {
                Some(u)
            } else {
                None
            }
        }),
{
    reveal_strlit(".");
    reveal_strlit(".gguf");
    let x = s + "."@ + q;
    let f = x + ".gguf"@;
    assert(f.subrange(f.len() - 5, f.len() as int) =~= ".gguf"@);
    assert(ends_with(f, ".gguf"@));
    assert(f.subrange(0, f.len() - 5) =~= x);
    assert(strip_suffix(f, ".gguf"@) == Some(x));
    let m = s.len() as int;
    assert(x[m] == '.');
    assert forall|k: int| m < k < x.len() implies x[k] != '.' by {
        assert(x[k] == q[k - m - 1]);
    }
    lemma_split_dot_tail(x, m, 0);
    assert(x.subrange(m + 1, x.len() as int) =~= q);
}

/// `extract_quantization`: the quantization type named in a file name.
pub fn extract_quantization(filename: &str) -> (r: Option<String>)
    ensures
        opt_str(r) == quantization_of(filename@),
{
    let f = chars_of(filename);
    let gguf = chars_of(".gguf");
    let stem = match strip_suffix_exec(&f, &gguf) {
        Some(s) => s,
        None => f,
    };
    let dot = chars_of(".");
    proof {
        reveal_strlit(".");
    }
    let parts = split_exec(&stem, &dot);
    if parts.len() >= 2 {
        let last = string_of(&parts[parts.len() - 1]);
        assert(pieces(&parts).last() == last@);
        let q = to_uppercase(last.as_str());
        let qv = chars_of(q.as_str());
        if starts_with_exec(&qv, &chars_of("Q")) || starts_with_exec(&qv, &chars_of("IQ"))
            || contains_exec(&qv, &chars_of("K_M")) || contains_exec(&qv, &chars_of("K_S"))
            || contains_exec(&qv, &chars_of("K_L")) {
            Some(q)
        } else {
            None
        }
    } else {
        None
    }
}

// ---------------------------------------------------------------------------
// The cache
// ---------------------------------------------------------------------------

/// What a registration adds: the entry for a downloaded file.
pub open spec fn new_entry(
    repo_id: Seq<char>,
    filename: Seq<char>,
    path: Seq<char>,
    file_size: u64,
    downloaded_at: Seq<char>,
) -> ModelEntry {
    ModelEntry {
        id: model_id_of(filename),
        repo_id,
        filename,
        path,
        file_size,
        alias: None,
        quantization: quantization_of(filename),
        architecture: None,
        downloaded_at,
    }
}

/// The registry after setting `alias` on the first entry with id `id`.
pub open spec fn with_alias(ms: Seq<ModelEntry>, id: Seq<char>, alias: Seq<char>) -> Seq<
    ModelEntry,
> {
    let j = first_match(ms, LookupKey::Id(id), 0);
    if j < ms.len() {
        ms.update(j, ModelEntry { alias: Some(alias), ..ms[j] })
    } else {
        ms
    }
}

/// The current time in RFC 3339 form (`chrono::Utc::now().to_rfc3339()`);
/// the value depends on the clock, so nothing is stated of it.
#[verifier::external_body]
fn now_rfc3339() -> String {
    chrono::Utc::now().to_rfc3339()
}

/// Manages the local model cache and registry.
pub struct ModelCache {
    cache_dir: String,
}

impl ModelCache {
    pub closed spec fn dir(&self) -> Seq<char> {
        self.cache_dir@
    }

    /// A cache rooted at `cache_dir` (the caller creates the directory).
    pub fn new(cache_dir: String) -> (r: ModelCache)
        ensures
            r.dir() == cache_dir@,
    {
        ModelCache { cache_dir }
    }

    pub fn cache_dir(&self) -> (r: &str)
        ensures
            r@ == self.dir(),
    {
        self.cache_dir.as_str()
    }

    /// `<cache>/models/<repo id with "/" replaced by "--">`.
    pub fn repo_dir(&self, repo_id: &str) -> (r: String)
        ensures
            r@ == path_join(path_join(self.dir(), "models"@), replace_all(repo_id@, "/"@, "--"@)),
    {
        let rv = chars_of(repo_id);
        let slash = chars_of("/");
        let dashes = chars_of("--");
        proof {
            reveal_strlit("/");
        }
        let safe = replace_all_exec(&rv, &slash, &dashes);
        let safe_s = string_of(&safe);
        let models = path_join_exec(self.cache_dir.as_str(), "models");
        path_join_exec(models.as_str(), safe_s.as_str())
    }

    /// Where a model file of a repo is stored.
    pub fn model_path(&self, repo_id: &str, filename: &str) -> (r: String)
        ensures
            r@ == path_join(
                path_join(path_join(self.dir(), "models"@), replace_all(repo_id@, "/"@, "--"@)),
                filename@,
            ),
    {
        let d = self.repo_dir(repo_id);
        path_join_exec(d.as_str(), filename)
    }

    /// Where the registry is stored.
    pub fn registry_path(&self) -> (r: String)
        ensures
            r@ == path_join(self.dir(), "registry.json"@),
    {
        path_join_exec(self.cache_dir.as_str(), "registry.json")
    }

    /// `register_model`: records a downloaded file, replacing any entry with
    /// the same id. The entry's `downloaded_at` is the current time.
    pub fn register_model(
        &self,
        registry: &mut Registry,
        repo_id: &str,
        filename: &str,
        path: &str,
        file_size: u64,
    )
        ensures
            final(registry)@.len() > 0,
            final(registry)@.drop_last() == without_id(old(registry)@, model_id_of(filename@)),
            final(registry)@.last() == new_entry(
                repo_id@,
                filename@,
                path@,
                file_size,
                final(registry)@.last().downloaded_at,
            ),
    {
        let model_id = generate_model_id(repo_id, filename);
        let idv = chars_of(model_id.as_str());
        remove_id(&mut registry.models, &idv);
        let quantization = extract_quantization(filename);
        let local = LocalModel {
            id: model_id,
            repo_id: owned(repo_id),
            filename: owned(filename),
            path: owned(path),
            file_size,
            alias: None,
            quantization,
            architecture: None,
            downloaded_at: now_rfc3339(),
        };
        let ghost before = registry.models@;
        registry.models.push(local);
        assert(entries(registry.models@) =~= entries(before).push(local@));
    }

    /// `find_model`: the first entry for a repo's file.
    pub fn find_model(&self, registry: &Registry, repo_id: &str, filename: &str) -> (r: Option<
        LocalModel,
    >)
        ensures
            opt_entry(r) == find_entry(registry@, LookupKey::RepoFile(repo_id@, filename@)),
    {
        let key = ExecKey::RepoFile(chars_of(repo_id), chars_of(filename));
        find_exec(&registry.models, &key)
    }

    /// Keeps a found entry whose file is still on disk; forgets one whose
    /// file is gone (removing its id from the registry).
    pub fn confirm_present(&self, registry: &mut Registry, found: Option<LocalModel>, exists: bool) -> (r:
        Option<LocalModel>)
        ensures
            match found {
                Some(m) => if exists {
                    opt_entry(r) == Some(m@) && final(registry)@ == old(registry)@
                } else {
                    r is None && final(registry)@ == without_id(old(registry)@, m@.id)
                },
                None => r is None && final(registry)@ == old(registry)@,
            },
    {
        match found {
            Some(m) => {
                if exists {
                    Some(m)
                } else {
                    let idv = chars_of(m.id.as_str());
                    remove_id(&mut registry.models, &idv);
                    None
                }
            },
            None => None,
        }
    }

    /// `find_by_id_or_alias`: the first entry whose id, alias or repo id is
    /// `query`.
    pub fn find_by_id_or_alias(&self, registry: &Registry, query: &str) -> (r: Option<LocalModel>)
        ensures
            opt_entry(r) == find_entry(registry@, LookupKey::IdOrAlias(query@)),
    {
        let key = ExecKey::IdOrAlias(chars_of(query));
        find_exec(&registry.models, &key)
    }

    /// `list_models`: all registered models.
    pub fn list_models(&self, registry: &Registry) -> (r: Vec<LocalModel>)
        ensures
            entries(r@) == registry@,
    {
        let mut out: Vec<LocalModel> = Vec::new();
        let mut i: usize = 0;
        while i < registry.models.len()
            invariant
                i <= registry.models.len(),
                entries(out@) == entries(registry.models@.subrange(0, i as int)),
            decreases registry.models.len() - i,
        {
            let m = registry.models[i].duplicate();
            let ghost before = out@;
            out.push(m);
            assert(entries(out@) =~= entries(before).push(m@));
            assert(entries(registry.models@.subrange(0, i + 1)) =~= entries(
                registry.models@.subrange(0, i as int),
            ).push(registry.models@[i as int]@));
            i = i + 1;
        }
        assert(registry.models@.subrange(0, registry.models@.len() as int) =~= registry.models@);
        out
    }

    /// `delete_model`: removes every entry with the id; returns the path of
    /// the first such entry, whose file the caller deletes.
    pub fn delete_model(&self, registry: &mut Registry, model_id: &str) -> (r: Option<String>)
        ensures
            final(registry)@ == without_id(old(registry)@, model_id@),
            match find_entry(old(registry)@, LookupKey::Id(model_id@)) {
                Some(m) => r matches Some(p) && p@ == m.path,
                None => r is None,
            },
    {
        let idv = chars_of(model_id);
        let key = ExecKey::Id(chars_of(model_id));
        let found = find_exec(&registry.models, &key);
        remove_id(&mut registry.models, &idv);
        match found {
            Some(m) => Some(m.path),
            None => None,
        }
    }

    /// `set_alias`: names the first entry with id `model_id`; fails with
    /// `ModelNotFound` when there is none.
    pub fn set_alias(&self, registry: &mut Registry, model_id: &str, alias: &str) -> (r: Result<
        (),
        ZonkyError,
    >)
        ensures
            find_entry(old(registry)@, LookupKey::Id(model_id@)) is Some ==> r is Ok,
            find_entry(old(registry)@, LookupKey::Id(model_id@)) is None ==> (r matches Err(
                ZonkyError::ModelNotFound(s),
            ) && s@ == model_id@),
            final(registry)@ == with_alias(old(registry)@, model_id@, alias@),
    {
        let key = ExecKey::Id(chars_of(model_id));
        let j = first_match_exec(&registry.models, &key);
        if j < registry.models.len() {
            let ghost before = registry.models@;
            let mut m = registry.models[j].duplicate();
            m.alias = Some(owned(alias));
            registry.models.set(j, m);
            assert(entries(registry.models@) =~= with_alias(entries(before), model_id@, alias@));
            Ok(())
        } else {
            Err(ZonkyError::ModelNotFound(owned(model_id)))
        }
    }
}


// ---------------------------------------------------------------------------
// Laws of the registry
// ---------------------------------------------------------------------------

/// Some entry has id `x`.
pub open spec fn has_model_id(ms: Seq<ModelEntry>, x: Seq<char>) -> bool {
    exists|i: int| 0 <= i < ms.len() && #[trigger] ms[i].id == x
}

proof fn lemma_first_match_at(ms: Seq<ModelEntry>, key: LookupKey, i: int, j: int)
    requires
        0 <= i <= j < ms.len(),
        matches_key(ms[j], key),
        forall|k: int| 0 <= k < j ==> !matches_key(#[trigger] ms[k], key),
    ensures
        first_match(ms, key, i) == j,
    decreases j - i,
{
    if i < j {
        lemma_first_match_at(ms, key, i + 1, j);
    }
}

/// Dropping an id (`delete_model`, and `register_model` before it adds the
/// new entry) leaves no entry with that id and keeps every other id.
pub proof fn lemma_without_id(ms: Seq<ModelEntry>, id: Seq<char>)
    ensures
        forall|i: int| 0 <= i < without_id(ms, id).len() ==> (#[trigger] without_id(ms, id)[i]).id != id,
        forall|x: Seq<char>| x != id ==> (has_model_id(ms, x) <==> #[trigger] has_model_id(without_id(ms, id), x)),
        without_id(ms, id).len() <= ms.len(),
    decreases ms.len(),
{
    if ms.len() > 0 {
        let p = ms.drop_last();
        lemma_without_id(p, id);
        let w = without_id(ms, id);
        let wp = without_id(p, id);
        assert forall|i: int| 0 <= i < w.len() implies (#[trigger] w[i]).id != id by {
            if ms.last().id != id && i == w.len() - 1 {
            } else {
                assert(w[i] == wp[i]);
            }
        }
        assert forall|x: Seq<char>| x != id implies (has_model_id(ms, x) <==> #[trigger] has_model_id(w, x)) by {
            if has_model_id(ms, x) {
                let i = choose|i: int| 0 <= i < ms.len() && #[trigger] ms[i].id == x;
                if i == ms.len() - 1 {
                    assert(w[w.len() - 1].id == x);
                } else {
                    assert(p[i].id == x);
                    assert(has_model_id(p, x));
                    assert(has_model_id(wp, x));
                    let j = choose|j: int| 0 <= j < wp.len() && #[trigger] wp[j].id == x;
                    if ms.last().id != id {
                        assert(w[j] == wp[j]);
                    }
                    assert(w[j].id == x);
                }
            }
            if has_model_id(w, x) {
                let j = choose|j: int| 0 <= j < w.len() && #[trigger] w[j].id == x;
                if ms.last().id != id && j == w.len() - 1 {
                    assert(ms[ms.len() - 1].id == x);
                } else {
                    assert(wp[j].id == x);
                    assert(has_model_id(wp, x));
                    assert(has_model_id(p, x));
                    let i = choose|i: int| 0 <= i < p.len() && #[trigger] p[i].id == x;
                    assert(ms[i].id == x);
                }
            }
        }
    }
}

/// After `register_model` the model's id is registered exactly once, and
/// looking it up gives the new entry.
pub proof fn lemma_register_then_find(ms: Seq<ModelEntry>, e: ModelEntry)
    ensures
        find_entry(without_id(ms, e.id).push(e), LookupKey::Id(e.id)) == Some(e),
        forall|i: int|
            0 <= i < without_id(ms, e.id).push(e).len() && (#[trigger] without_id(ms, e.id).push(e)[i]).id == e.id
                ==> i == without_id(ms, e.id).len(),
{
    let w = without_id(ms, e.id);
    let t = w.push(e);
    lemma_without_id(ms, e.id);
    assert forall|k: int| 0 <= k < w.len() implies !matches_key(#[trigger] t[k], LookupKey::Id(e.id)) by {
        assert(t[k] == w[k]);
    }
    lemma_first_match_at(t, LookupKey::Id(e.id), 0, w.len() as int);
    assert forall|i: int| 0 <= i < t.len() && (#[trigger] t[i]).id == e.id implies i == w.len() by {
        if i < w.len() {
            assert(t[i] == w[i]);
        }
    }
}

/// After `delete_model` the id is not found, and every other id is
/// registered exactly when it was before.
pub proof fn lemma_delete_then_find(ms: Seq<ModelEntry>, id: Seq<char>)
    ensures
        find_entry(without_id(ms, id), LookupKey::Id(id)) is None,
        forall|x: Seq<char>| x != id ==> (has_model_id(ms, x) <==> #[trigger] has_model_id(without_id(ms, id), x)),
{
    let w = without_id(ms, id);
    lemma_without_id(ms, id);
    lemma_first_match(w, LookupKey::Id(id), 0);
    if first_match(w, LookupKey::Id(id), 0) < w.len() {
        let j = first_match(w, LookupKey::Id(id), 0);
        assert(w[j].id != id);
    }
}

/// After `set_alias` the model carries the alias, and a lookup by that alias
/// finds a model.
pub proof fn lemma_alias_then_find(ms: Seq<ModelEntry>, id: Seq<char>, alias: Seq<char>)
    requires
        find_entry(ms, LookupKey::Id(id)) is Some,
    ensures
        find_entry(with_alias(ms, id, alias), LookupKey::Id(id)) == Some(
            ModelEntry { alias: Some(alias), ..find_entry(ms, LookupKey::Id(id))->0 },
        ),
        find_entry(with_alias(ms, id, alias), LookupKey::IdOrAlias(alias)) is Some,
{
    let j = first_match(ms, LookupKey::Id(id), 0);
    lemma_first_match(ms, LookupKey::Id(id), 0);
    let u = with_alias(ms, id, alias);
    assert forall|k: int| 0 <= k < j implies !matches_key(#[trigger] u[k], LookupKey::Id(id)) by {
        assert(u[k] == ms[k]);
    }
    lemma_first_match_at(u, LookupKey::Id(id), 0, j);
    lemma_first_match(u, LookupKey::IdOrAlias(alias), 0);
    if first_match(u, LookupKey::IdOrAlias(alias), 0) >= u.len() {
        assert(matches_key(u[j], LookupKey::IdOrAlias(alias)));
    }
}

} // verus!
