//! Model orchestration: the table of loaded models, device and backend
//! selection, the VRAM budget, eviction, and the steps of loading a model.
use vstd::prelude::*;
use vstd::string::*;

use crate::cache::{entries, find_entry, first_match, lemma_first_match, LookupKey, ModelEntry};
use crate::error::ZonkyError;
use crate::gpu::{device_views, first_gpu, first_gpu_of, is_gpu_of, vram_free_of, DeviceView, GpuDevice};
use crate::inference::ModelHandle;
use crate::text::{
    chars_of, clone_opt, decimal, decimal_exec, eq_chars, extend_chars, extend_str, join,
    join_exec, lemma_pieces_push, opt_str, owned, pieces, string_of,
};
use crate::inference::{unix_time, BackendCompatibility};
use crate::types::{BackendChoice, DeviceChoice, LocalModel, ModelInfo};

verus! {

broadcast use vstd::seq_lib::group_seq_properties;

pub open spec fn strs(v: Seq<String>) -> Seq<Seq<char>> {
    v.map_values(|s: String| s@)
}

fn clone_strings(v: &Vec<String>) -> (r: Vec<String>)
    ensures
        strs(r@) == strs(v@),
{
    let mut out: Vec<String> = Vec::new();
    let mut i: usize = 0;
    while i < v.len()
        invariant
            i <= v.len(),
            strs(out@) == strs(v@.subrange(0, i as int)),
        decreases v.len() - i,
    {
        let s = v[i].clone();
        let ghost before = out@;
        out.push(s);
        assert(strs(out@) =~= strs(before).push(s@));
        assert(strs(v@.subrange(0, i + 1)) =~= strs(v@.subrange(0, i as int)).push(v@[i as int]@));
        i = i + 1;
    }
    assert(v@.subrange(0, v@.len() as int) =~= v@);
    out
}

/// The value of a [`ModelInfo`].
pub struct InfoView {
    pub id: Seq<char>,
    pub object: Seq<char>,
    pub created: i64,
    pub owned_by: Seq<char>,
    pub architecture: Option<Seq<char>>,
    pub quantization: Option<Seq<char>>,
    pub parameters: Option<Seq<char>>,
    pub file_size: Option<u64>,
    pub vram_usage: Option<u64>,
    pub loaded: bool,
    pub backend: Option<Seq<char>>,
    pub compatible_backends: Seq<Seq<char>>,
}

impl View for ModelInfo {
    type V = InfoView;

    open spec fn view(&self) -> InfoView {
        InfoView {
            id: self.id@,
            object: self.object@,
            created: self.created,
            owned_by: self.owned_by@,
            architecture: opt_str(self.architecture),
            quantization: opt_str(self.quantization),
            parameters: opt_str(self.parameters),
            file_size: self.file_size,
            vram_usage: self.vram_usage,
            loaded: self.loaded,
            backend: opt_str(self.backend),
            compatible_backends: strs(self.compatible_backends@),
        }
    }
}

impl ModelInfo {
    /// A copy of the record.
    pub fn duplicate(&self) -> (r: ModelInfo)
        ensures
            r@ == self@,
    {
        ModelInfo {
            id: self.id.clone(),
            object: self.object.clone(),
            created: self.created,
            owned_by: self.owned_by.clone(),
            architecture: clone_opt(&self.architecture),
            quantization: clone_opt(&self.quantization),
            parameters: clone_opt(&self.parameters),
            file_size: self.file_size,
            vram_usage: self.vram_usage,
            loaded: self.loaded,
            backend: clone_opt(&self.backend),
            compatible_backends: clone_strings(&self.compatible_backends),
        }
    }
}

pub open spec fn info_views(v: Seq<ModelInfo>) -> Seq<InfoView> {
    v.map_values(|m: ModelInfo| m@)
}

// ---------------------------------------------------------------------------
// The table of loaded models
// ---------------------------------------------------------------------------

/// A loaded model with its metadata and backend reference.
#[derive(Debug)]
pub struct LoadedModel {
    pub id: String,
    pub handle: ModelHandle,
    pub info: ModelInfo,
    pub backend_name: String,
    /// Tick of the model's last use.
    pub last_used: u64,
    pub vram_usage: u64,
}

/// The value of a loaded model.
pub struct LoadedView {
    pub id: Seq<char>,
    pub handle_id: Seq<char>,
    pub handle_backend: Seq<char>,
    pub info: InfoView,
    pub backend: Seq<char>,
    pub last_used: u64,
    pub vram: u64,
}

impl View for LoadedModel {
    type V = LoadedView;

    open spec fn view(&self) -> LoadedView {
        LoadedView {
            id: self.id@,
            handle_id: self.handle.id@,
            handle_backend: self.handle.backend@,
            info: self.info@,
            backend: self.backend_name@,
            last_used: self.last_used,
            vram: self.vram_usage,
        }
    }
}

pub open spec fn loaded_views(v: Seq<LoadedModel>) -> Seq<LoadedView> {
    v.map_values(|m: LoadedModel| m@)
}

/// Loaded models keyed by model id (each id at most once), with the clock
/// that orders their uses.
pub struct ModelTable {
    models: Vec<LoadedModel>,
    clock: u64,
}

/// Ids are distinct.
pub open spec fn unique_ids(s: Seq<LoadedView>) -> bool {
    forall|i: int, j: int| 0 <= i < j < s.len() ==> s[i].id != s[j].id
}

/// Index of the entry with id `id`, or `s.len()`.
pub open spec fn index_of(s: Seq<LoadedView>, id: Seq<char>) -> int
    decreases s.len(),
{
    if s.len() == 0 {
        0
    } else if s.last().id == id && index_of(s.drop_last(), id) == s.len() - 1 {
        s.len() - 1
    } else {
        index_of(s.drop_last(), id)
    }
}

pub open spec fn has_id(s: Seq<LoadedView>, id: Seq<char>) -> bool {
    exists|i: int| 0 <= i < s.len() && #[trigger] s[i].id == id
}

/// The entries other than the one with id `id`.
pub open spec fn without(s: Seq<LoadedView>, id: Seq<char>) -> Seq<LoadedView>
    decreases s.len(),
{
    if s.len() == 0 {
        seq![]
    } else if s.last().id == id {
        without(s.drop_last(), id)
    } else {
        without(s.drop_last(), id).push(s.last())
    }
}

/// Total VRAM held by the entries.
pub open spec fn total_vram(s: Seq<LoadedView>) -> nat
    decreases s.len(),
{
    if s.len() == 0 {
        0
    } else {
        total_vram(s.drop_last()) + s.last().vram as nat
    }
}

/// Removing a model leaves no entry with its id, keeps ids unique, keeps
/// every other id, and keeps only entries that were there.
pub proof fn lemma_without(s: Seq<LoadedView>, id: Seq<char>)
    requires
        unique_ids(s),
    ensures
        unique_ids(without(s, id)),
        !has_id(without(s, id), id),
        forall|x: Seq<char>| x != id ==> (has_id(without(s, id), x) == has_id(s, x)),
        forall|k: int| 0 <= k < without(s, id).len() ==> s.contains(#[trigger] without(s, id)[k]),
        without(s, id).len() <= s.len(),
    decreases s.len(),
{
    if s.len() > 0 {
        let p = s.drop_last();
        assert(unique_ids(p));
        lemma_without(p, id);
        let w = without(s, id);
        let wp = without(p, id);
        assert forall|x: Seq<char>| x != id implies (has_id(w, x) == has_id(s, x)) by {
            if has_id(s, x) {
                let i = choose|i: int| 0 <= i < s.len() && #[trigger] s[i].id == x;
                if i < s.len() - 1 {
                    assert(p[i].id == x);
                    assert(has_id(p, x));
                    assert(has_id(wp, x));
                    let j = choose|j: int| 0 <= j < wp.len() && #[trigger] wp[j].id == x;
                    if s.last().id != id {
                        assert(w[j] == wp[j]);
                    }
                } else {
                    assert(s.last().id == x);
                    assert(w.last().id == x);
                }
            }
            if has_id(w, x) {
                let j = choose|j: int| 0 <= j < w.len() && #[trigger] w[j].id == x;
                if s.last().id != id && j == w.len() - 1 {
                    assert(s[s.len() - 1].id == x);
                } else {
                    assert(wp[j].id == x);
                    assert(has_id(wp, x));
                    let i = choose|i: int| 0 <= i < p.len() && #[trigger] p[i].id == x;
                    assert(s[i].id == x);
                }
            }
        }
        assert forall|k: int| 0 <= k < w.len() implies s.contains(#[trigger] w[k]) by {
            if s.last().id != id && k == w.len() - 1 {
                assert(s[s.len() - 1] == w[k]);
            } else {
                assert(p.contains(wp[k]));
                let i = choose|i: int| 0 <= i < p.len() && p[i] == wp[k];
                assert(s[i] == w[k]);
            }
        }
        assert forall|i: int, j: int| 0 <= i < j < w.len() implies w[i].id != w[j].id by {
            if s.last().id != id && j == w.len() - 1 {
                assert(w[j] == s.last());
                assert(p.contains(wp[i]));
                let a = choose|a: int| 0 <= a < p.len() && p[a] == wp[i];
                assert(s[a] == w[i]);
            } else {
                assert(w[i] == wp[i]);
                assert(w[j] == wp[j]);
            }
        }
        if has_id(w, id) {
            let j = choose|j: int| 0 <= j < w.len() && #[trigger] w[j].id == id;
            if s.last().id != id && j == w.len() - 1 {
            } else {
                assert(wp[j].id == id);
            }
        }
    }
}

/// Removing an id that is not loaded changes nothing.
pub proof fn lemma_without_absent(s: Seq<LoadedView>, id: Seq<char>)
    requires
        !has_id(s, id),
    ensures
        without(s, id) == s,
    decreases s.len(),
{
    if s.len() > 0 {
        let p = s.drop_last();
        assert(!has_id(p, id)) by {
            if has_id(p, id) {
                let i = choose|i: int| 0 <= i < p.len() && #[trigger] p[i].id == id;
                assert(s[i].id == id);
            }
        }
        lemma_without_absent(p, id);
        assert(s[s.len() - 1].id != id);
        assert(p.push(s.last()) =~= s);
    }
}

proof fn lemma_without_at(s: Seq<LoadedView>, i: int, id: Seq<char>)
    requires
        unique_ids(s),
        0 <= i < s.len(),
        s[i].id == id,
    ensures
        without(s, id) == s.remove(i),
    decreases s.len(),
{
    let p = s.drop_last();
    assert(unique_ids(p));
    if i == s.len() - 1 {
        assert(!has_id(p, id)) by {
            if has_id(p, id) {
                let j = choose|j: int| 0 <= j < p.len() && #[trigger] p[j].id == id;
                assert(s[j].id == s[i].id);
            }
        }
        lemma_without_absent(p, id);
        assert(s.remove(i) =~= p);
    } else {
        assert(s[s.len() - 1].id != id);
        lemma_without_at(p, i, id);
        assert(p.remove(i).push(s.last()) =~= s.remove(i));
    }
}

impl View for ModelTable {
    type V = Seq<LoadedView>;

    closed spec fn view(&self) -> Seq<LoadedView> {
        loaded_views(self.models@)
    }
}

impl ModelTable {
    #[verifier::type_invariant]
    closed spec fn inv(self) -> bool {
        &&& unique_ids(loaded_views(self.models@))
        &&& forall|i: int| 0 <= i < self.models@.len() ==> #[trigger] self.models@[i].last_used <= self.clock
    }

    /// The tick the next use will get.
    pub closed spec fn now(self) -> u64 {
        self.clock
    }

    /// An empty table.
    pub fn new() -> (r: ModelTable)
        ensures
            r@ == Seq::<LoadedView>::empty(),
            r.now() == 0,
    {
        let r = ModelTable { models: Vec::new(), clock: 0 };
        assert(r@ =~= Seq::<LoadedView>::empty());
        r
    }

    fn find(&self, id: &str) -> (r: usize)
        ensures
            r <= self@.len(),
            r < self@.len() ==> self@[r as int].id == id@,
            r == self@.len() ==> !has_id(self@, id@),
    {
        let idv = chars_of(id);
        let mut i: usize = 0;
        while i < self.models.len()
            invariant
                i <= self.models.len(),
                self@ == loaded_views(self.models@),
                idv@ == id@,
                forall|k: int| 0 <= k < i ==> self@[k].id != id@,
            decreases self.models.len() - i,
        {
            assert(self@[i as int] == self.models@[i as int]@);
            let mv = chars_of(self.models[i].id.as_str());
            if eq_chars(&mv, &idv) {
                return i;
            }
            i = i + 1;
        }
        i
    }

    /// Whether a model with this id is loaded.
    pub fn contains(&self, id: &str) -> (r: bool)
        ensures
            r == has_id(self@, id@),
    {
        let i = self.find(id);
        i < self.models.len()
    }

    /// The entry of a loaded model.
    pub fn get(&self, id: &str) -> (r: Option<&LoadedModel>)
        ensures
            has_id(self@, id@) ==> (r matches Some(m) && m@.id == id@ && self@.contains(m@)),
            !has_id(self@, id@) ==> r is None,
    {
        let i = self.find(id);
        if i < self.models.len() {
            assert(self@[i as int] == self.models@[i as int]@);
            Some(&self.models[i])
        } else {
            None
        }
    }

    /// Removes and returns a loaded model.
    pub fn remove(&mut self, id: &str) -> (r: Option<LoadedModel>)
        ensures
            final(self)@ == without(old(self)@, id@),
            final(self).now() == old(self).now(),
            has_id(old(self)@, id@) ==> (r matches Some(m) && m@.id == id@ && old(self)@.contains(m@)),
            !has_id(old(self)@, id@) ==> r is None,
    {
        proof {
            use_type_invariant(&*self);
        }
        let i = self.find(id);
        if i < self.models.len() {
            let mut models: Vec<LoadedModel> = Vec::new();
            std::mem::swap(&mut models, &mut self.models);
            let ghost before = models@;
            let m = models.remove(i);
            proof {
                lemma_without_at(loaded_views(before), i as int, id@);
                lemma_without(loaded_views(before), id@);
                assert(loaded_views(models@) =~= loaded_views(before).remove(i as int));
                assert(loaded_views(before)[i as int] == m@);
                assert forall|q: int| 0 <= q < models@.len() implies #[trigger] models@[q].last_used <= self.clock by {
                    if q < i {
                        assert(models@[q] == before[q]);
                    } else {
                        assert(models@[q] == before[q + 1]);
                    }
                }
            }
            self.models = models;
            Some(m)
        } else {
            proof {
                lemma_without_absent(self@, id@);
            }
            None
        }
    }

    /// Records a loaded model, replacing any entry with the same id; the
    /// model counts as used now.
    pub fn insert(&mut self, id: String, handle: ModelHandle, info: ModelInfo, backend_name: String, vram_usage: u64)
        ensures
            final(self)@ == without(old(self)@, id@).push(
                LoadedView {
                    id: id@,
                    handle_id: handle.id@,
                    handle_backend: handle.backend@,
                    info: info@,
                    backend: backend_name@,
                    last_used: old(self).now(),
                    vram: vram_usage,
                },
            ),
            final(self).now() >= old(self).now(),
    {
        proof {
            use_type_invariant(&*self);
            lemma_without(self@, id@);
        }
        let _ = self.remove(id.as_str());
        proof {
            use_type_invariant(&*self);
        }
        let tick = self.clock;
        let mut models: Vec<LoadedModel> = Vec::new();
        std::mem::swap(&mut models, &mut self.models);
        let ghost before = models@;
        let m = LoadedModel { id, handle, info, backend_name, last_used: tick, vram_usage };
        let ghost mv = m@;
        models.push(m);
        proof {
            assert(loaded_views(models@) =~= loaded_views(before).push(mv));
            assert forall|a: int, b: int| 0 <= a < b < loaded_views(models@).len() implies loaded_views(models@)[a].id != loaded_views(models@)[b].id by {
                assert(loaded_views(models@)[a] == loaded_views(before)[a] || b < loaded_views(before).len());
                if b == loaded_views(before).len() {
                    assert(loaded_views(before)[a].id != mv.id);
                }
            }
            assert forall|q: int| 0 <= q < models@.len() implies #[trigger] models@[q].last_used <= self.clock by {
                if q < before.len() {
                    assert(models@[q] == before[q]);
                }
            }
        }
        self.models = models;
        if self.clock < u64::MAX {
            self.clock = self.clock + 1;
        }
    }

    /// Marks a model as used now (`last_used` is the clock's tick).
    pub fn touch(&mut self, id: &str)
        ensures
            final(self)@.len() == old(self)@.len(),
            forall|k: int|
                0 <= k < old(self)@.len() ==> if old(self)@[k].id == id@ {
                    final(self)@[k] == LoadedView { last_used: old(self).now(), ..old(self)@[k] }
                } else {
                    final(self)@[k] == old(self)@[k]
                },
            final(self).now() >= old(self).now(),
    {
        proof {
            use_type_invariant(&*self);
        }
        let i = self.find(id);
        if i < self.models.len() {
            let tick = self.clock;
            let mut models: Vec<LoadedModel> = Vec::new();
            std::mem::swap(&mut models, &mut self.models);
            let ghost before = models@;
            let mut m = models.remove(i);
            m.last_used = tick;
            let ghost mm = m;
            models.insert(i, m);
            proof {
                assert(models@.len() == before.len());
                assert forall|k: int| 0 <= k < before.len() implies (if before[k]@.id == id@ {
                    loaded_views(models@)[k] == LoadedView { last_used: tick, ..before[k]@ }
                } else {
                    loaded_views(models@)[k] == before[k]@
                }) by {
                    if k != i {
                        assert(models@[k] == before[k]);
                        assert(loaded_views(before)[k].id != loaded_views(before)[i as int].id);
                    } else {
                        assert(models@[k] == mm);
                    }
                }
                assert forall|a: int, b: int| 0 <= a < b < loaded_views(models@).len() implies loaded_views(models@)[a].id != loaded_views(models@)[b].id by {
                    assert(loaded_views(models@)[a].id == loaded_views(before)[a].id);
                    assert(loaded_views(models@)[b].id == loaded_views(before)[b].id);
                }
                assert forall|q: int| 0 <= q < models@.len() implies #[trigger] models@[q].last_used <= self.clock by {
                    if q != i {
                        assert(models@[q] == before[q]);
                    }
                }
            }
            self.models = models;
            if self.clock < u64::MAX {
                self.clock = self.clock + 1;
            }
        }
    }

    /// Total VRAM of the loaded models.
    pub fn used_vram(&self) -> (r: u128)
        ensures
            r == total_vram(self@),
    {
        let mut sum: u128 = 0;
        let mut i: usize = 0;
        while i < self.models.len()
            invariant
                i <= self.models.len(),
                self@ == loaded_views(self.models@),
                sum == total_vram(self@.subrange(0, i as int)),
                sum <= i * 0xffff_ffff_ffff_ffffu128,
            decreases self.models.len() - i,
        {
            assert(self@.subrange(0, i + 1).drop_last() =~= self@.subrange(0, i as int));
            assert(self@[i as int] == self.models@[i as int]@);
            assert(sum + self.models@[i as int].vram_usage <= (i + 1) * 0xffff_ffff_ffff_ffffu128) by (nonlinear_arith)
                requires
                    sum <= i * 0xffff_ffff_ffff_ffffu128,
                    self.models@[i as int].vram_usage <= 0xffff_ffff_ffff_ffffu128,
            ;
            assert((i + 1) * 0xffff_ffff_ffff_ffffu128 <= u128::MAX) by (nonlinear_arith)
                requires
                    i < 0x1_0000_0000_0000_0000,
            ;
            sum = sum + self.models[i].vram_usage as u128;
            i = i + 1;
        }
        assert(self@.subrange(0, self@.len() as int) =~= self@);
        sum
    }

    /// The records of the loaded models (`list_loaded_models`).
    pub fn list_infos(&self) -> (r: Vec<ModelInfo>)
        ensures
            r@.len() == self@.len(),
            forall|k: int| 0 <= k < self@.len() ==> #[trigger] r@[k]@ == self@[k].info,
    {
        let mut out: Vec<ModelInfo> = Vec::new();
        let mut i: usize = 0;
        while i < self.models.len()
            invariant
                i <= self.models.len(),
                self@ == loaded_views(self.models@),
                out@.len() == i,
                forall|k: int| 0 <= k < i ==> #[trigger] out@[k]@ == self@[k].info,
            decreases self.models.len() - i,
        {
            assert(self@[i as int] == self.models@[i as int]@);
            out.push(self.models[i].info.duplicate());
            i = i + 1;
        }
        out
    }

    /// The backend and handle of a loaded model (for generation); marks the
    /// model used.
    pub fn use_model(&mut self, id: &str) -> (r: Result<(String, ModelHandle), ZonkyError>)
        ensures
            has_id(old(self)@, id@) ==> (r matches Ok((b, h)) && exists|k: int|
                0 <= k < old(self)@.len() && old(self)@[k].id == id@ && b@ == old(self)@[k].backend
                    && h.id@ == old(self)@[k].handle_id && h.backend@ == old(self)@[k].handle_backend),
            !has_id(old(self)@, id@) ==> (r matches Err(ZonkyError::ModelNotFound(s)) && s@ == id@),
            final(self)@.len() == old(self)@.len(),
            forall|k: int|
                0 <= k < old(self)@.len() ==> if old(self)@[k].id == id@ {
                    final(self)@[k] == LoadedView { last_used: old(self).now(), ..old(self)@[k] }
                } else {
                    final(self)@[k] == old(self)@[k]
                },
    {
        let i = self.find(id);
        if i >= self.models.len() {
            proof {
                assert forall|k: int| 0 <= k < old(self)@.len() implies old(self)@[k].id != id@ by {}
            }
            return Err(ZonkyError::ModelNotFound(owned(id)));
        }
        assert(self@[i as int] == self.models@[i as int]@);
        let b = self.models[i].backend_name.clone();
        let h = ModelHandle {
            id: self.models[i].handle.id.clone(),
            backend: self.models[i].handle.backend.clone(),
        };
        self.touch(id);
        Ok((b, h))
    }
}

// ---------------------------------------------------------------------------
// Eviction
// ---------------------------------------------------------------------------

/// Index of the first least-recently-used entry of `s[..n]`.
pub open spec fn lru_index(s: Seq<LoadedView>, n: int) -> int
    decreases n,
{
    if n <= 1 {
        0
    } else {
        let p = lru_index(s, n - 1);
        if s[n - 1].last_used < s[p].last_used {
            n - 1
        } else {
            p
        }
    }
}

pub proof fn lemma_lru_index(s: Seq<LoadedView>, n: int)
    requires
        1 <= n <= s.len(),
    ensures
        0 <= lru_index(s, n) < n,
        forall|k: int| 0 <= k < n ==> s[lru_index(s, n)].last_used <= #[trigger] s[k].last_used,
    decreases n,
{
    if n > 1 {
        lemma_lru_index(s, n - 1);
    }
}

/// Ids evicted to free `needed` bytes when `freed` are already free: the
/// least recently used entries, one by one, until enough is freed.
pub open spec fn eviction_of(s: Seq<LoadedView>, needed: nat, freed: nat) -> Seq<Seq<char>>
    decreases s.len(),
{
    if freed >= needed || s.len() == 0 {
        seq![]
    } else {
        let k = lru_index(s, s.len() as int);
        proof {
            lemma_lru_index(s, s.len() as int);
        }
        seq![s[k].id] + eviction_of(s.remove(k), needed, freed + s[k].vram as nat)
    }
}

/// `evict_lru`'s choice: which models to unload, in order, to free
/// `bytes_needed` bytes of VRAM.
pub fn eviction_plan(table: &ModelTable, bytes_needed: u64) -> (r: Vec<String>)
    ensures
        strs(r@) == eviction_of(table@, bytes_needed as nat, 0),
{
    let mut rest: Vec<(String, u64, u64)> = Vec::new();
    let mut i: usize = 0;
    let ghost tv = table@;
    while i < table.models.len()
        invariant
            i <= table.models.len(),
            tv == loaded_views(table.models@),
            rest@.len() == i,
            forall|q: int| 0 <= q < i ==> (#[trigger] rest@[q]).0@ == tv[q].id && rest@[q].1 == tv[q].last_used && rest@[q].2 == tv[q].vram,
        decreases table.models.len() - i,
    {
        assert(tv[i as int] == table.models@[i as int]@);
        let m = &table.models[i];
        rest.push((m.id.clone(), m.last_used, m.vram_usage));
        i = i + 1;
    }
    let ghost mut remaining: Seq<LoadedView> = tv;
    let mut out: Vec<String> = Vec::new();
    let mut freed: u128 = 0;
    let ghost whole = eviction_of(tv, bytes_needed as nat, 0);
    while rest.len() > 0 && freed < bytes_needed as u128
        invariant
            rest@.len() == remaining.len(),
            forall|q: int| 0 <= q < rest@.len() ==> (#[trigger] rest@[q]).0@ == remaining[q].id && rest@[q].1 == remaining[q].last_used && rest@[q].2 == remaining[q].vram,
            whole == strs(out@) + eviction_of(remaining, bytes_needed as nat, freed as nat),
            freed <= out@.len() * 0xffff_ffff_ffff_ffffu128,
            out@.len() <= tv.len(),
            out@.len() + remaining.len() == tv.len(),
            tv.len() <= usize::MAX,
        decreases rest@.len(),
    {
        let mut best: usize = 0;
        let mut j: usize = 1;
        while j < rest.len()
            invariant
                1 <= j <= rest@.len(),
                0 <= best < j,
                rest@.len() == remaining.len(),
                best == lru_index(remaining, j as int),
                forall|q: int| 0 <= q < rest@.len() ==> (#[trigger] rest@[q]).1 == remaining[q].last_used,
            decreases rest@.len() - j,
        {
            if rest[j].1 < rest[best].1 {
                best = j;
            }
            j = j + 1;
        }
        let ghost k = best as int;
        proof {
            lemma_lru_index(remaining, remaining.len() as int);
        }
        let entry = rest.remove(best);
        assert(whole == strs(out@) + (seq![remaining[k].id] + eviction_of(remaining.remove(k), bytes_needed as nat, (freed + remaining[k].vram) as nat)));
        assert(freed + entry.2 <= (out@.len() + 1) * 0xffff_ffff_ffff_ffffu128) by (nonlinear_arith)
            requires
                freed <= out@.len() * 0xffff_ffff_ffff_ffffu128,
                entry.2 <= 0xffff_ffff_ffff_ffffu128,
        ;
        assert((out@.len() + 1) * 0xffff_ffff_ffff_ffffu128 <= u128::MAX) by (nonlinear_arith)
            requires
                out@.len() < 0x1_0000_0000_0000_0000,
        ;
        freed = freed + entry.2 as u128;
        let ghost before = out@;
        out.push(entry.0);
        assert(strs(out@) =~= strs(before).push(remaining[k].id));
        assert(strs(before) + (seq![remaining[k].id] + eviction_of(remaining.remove(k), bytes_needed as nat, freed as nat)) =~= strs(out@) + eviction_of(remaining.remove(k), bytes_needed as nat, freed as nat));
        proof {
            let old_rem = remaining;
            remaining = old_rem.remove(k);
            assert forall|q: int| 0 <= q < rest@.len() implies (#[trigger] rest@[q]).0@ == remaining[q].id && rest@[q].1 == remaining[q].last_used && rest@[q].2 == remaining[q].vram by {
                if q < k {
                } else {
                }
            }
        }
    }
    assert(eviction_of(remaining, bytes_needed as nat, freed as nat) =~= Seq::<Seq<char>>::empty());
    assert(whole =~= strs(out@));
    out
}

// ---------------------------------------------------------------------------
// Devices and backends
// ---------------------------------------------------------------------------

/// The first device satisfying `pick`: a CUDA device with the index, or a
/// Metal device.
pub open spec fn first_device(s: Seq<DeviceView>, cuda: Option<usize>, i: int) -> Option<DeviceView>
    decreases s.len() - i,
{
    if i < 0 || i >= s.len() {
        None
    } else if (match cuda {
        Some(idx) => s[i] matches DeviceView::Cuda { index, .. } && index == idx,
        None => s[i] is Metal,
    }) {
        Some(s[i])
    } else {
        first_device(s, cuda, i + 1)
    }
}

/// The device a choice selects among the detected devices.
pub open spec fn select_device_of(s: Seq<DeviceView>, choice: DeviceChoice) -> Result<DeviceView, Seq<char>> {
    match choice {
        DeviceChoice::Auto => Ok(first_gpu(s)),
        DeviceChoice::Cpu => Ok(DeviceView::Cpu),
        DeviceChoice::Cuda(idx) => match first_device(s, Some(idx), 0) {
            Some(d) => Ok(d),
            None => Err("CUDA device "@ + decimal(idx as nat) + " not found"@),
        },
        DeviceChoice::Metal => match first_device(s, None, 0) {
            Some(d) => Ok(d),
            None => Err("Metal device not found"@),
        },
    }
}

/// `load_model`'s device selection; a missing device is a `GpuError`.
pub fn select_device(devices: &Vec<GpuDevice>, choice: DeviceChoice) -> (r: Result<GpuDevice, ZonkyError>)
    ensures
        match select_device_of(device_views(devices@), choice) {
            Ok(d) => r matches Ok(g) && g@ == d,
            Err(m) => r matches Err(ZonkyError::GpuError(s)) && s@ == m,
        },
{
    match choice {
        DeviceChoice::Auto => Ok(first_gpu_of(devices)),
        DeviceChoice::Cpu => Ok(GpuDevice::Cpu),
        DeviceChoice::Cuda(idx) => {
            let mut i: usize = 0;
            while i < devices.len()
                invariant
                    i <= devices.len(),
                    choice == DeviceChoice::Cuda(idx),
                    first_device(device_views(devices@), Some(idx), 0) == first_device(device_views(devices@), Some(idx), i as int),
                decreases devices.len() - i,
            {
                assert(device_views(devices@)[i as int] == devices@[i as int]@);
                match &devices[i] {
                    GpuDevice::Cuda { index, .. } => {
                        if *index == idx {
                            return Ok(devices[i].duplicate());
                        }
                    },
                    _ => {},
                }
                i = i + 1;
            }
            let mut m = chars_of("CUDA device ");
            let d = decimal_exec(idx as u64);
            extend_chars(&mut m, &d);
            extend_str(&mut m, " not found");
            Err(ZonkyError::GpuError(string_of(&m)))
        },
        DeviceChoice::Metal => {
            let mut i: usize = 0;
            while i < devices.len()
                invariant
                    i <= devices.len(),
                    choice == DeviceChoice::Metal,
                    first_device(device_views(devices@), None, 0) == first_device(device_views(devices@), None, i as int),
                decreases devices.len() - i,
            {
                assert(device_views(devices@)[i as int] == devices@[i as int]@);
                match &devices[i] {
                    GpuDevice::Metal { .. } => {
                        return Ok(devices[i].duplicate());
                    },
                    _ => {},
                }
                i = i + 1;
            }
            Err(ZonkyError::GpuError(owned("Metal device not found")))
        },
    }
}

pub open spec fn any_rocm(s: Seq<DeviceView>) -> bool {
    exists|i: int| 0 <= i < s.len() && #[trigger] s[i] is Rocm
}

/// The order in which backends are tried under `BackendChoice::Auto`: with an
/// AMD ROCm GPU llama.cpp first (Candle has no ROCm support), otherwise
/// Candle first; only registered backends; all registered backends when
/// neither is registered.
pub open spec fn priority_of(devices: Seq<DeviceView>, registered: Seq<Seq<char>>) -> Seq<Seq<char>> {
    let c = registered.contains("candle"@);
    let l = registered.contains("llamacpp"@);
    let order = if any_rocm(devices) {
        (if l {
            seq!["llamacpp"@]
        } else {
            seq![]
        }) + (if c {
            seq!["candle"@]
        } else {
            seq![]
        })
    } else {
        (if c {
            seq!["candle"@]
        } else {
            seq![]
        }) + (if l {
            seq!["llamacpp"@]
        } else {
            seq![]
        })
    };
    if order.len() == 0 {
        registered
    } else {
        order
    }
}

fn contains_str(v: &Vec<String>, s: &str) -> (r: bool)
    ensures
        r == strs(v@).contains(s@),
{
    let sv = chars_of(s);
    let mut i: usize = 0;
    while i < v.len()
        invariant
            i <= v.len(),
            sv@ == s@,
            forall|k: int| 0 <= k < i ==> strs(v@)[k] != s@,
        decreases v.len() - i,
    {
        let x = chars_of(v[i].as_str());
        assert(strs(v@)[i as int] == v@[i as int]@);
        if eq_chars(&x, &sv) {
            return true;
        }
        i = i + 1;
    }
    false
}

/// `backend_priority_order`: the hardware-aware order of backends to try.
pub fn backend_priority_order(devices: &Vec<GpuDevice>, registered: &Vec<String>) -> (r: Vec<String>)
    ensures
        strs(r@) == priority_of(device_views(devices@), strs(registered@)),
{
    let mut has_rocm = false;
    let mut i: usize = 0;
    while i < devices.len()
        invariant
            i <= devices.len(),
            has_rocm == exists|k: int| 0 <= k < i && #[trigger] device_views(devices@)[k] is Rocm,
        decreases devices.len() - i,
    {
        assert(device_views(devices@)[i as int] == devices@[i as int]@);
        match &devices[i] {
            GpuDevice::Rocm { .. } => {
                has_rocm = true;
            },
            _ => {},
        }
        i = i + 1;
    }
    let c = contains_str(registered, "candle");
    let l = contains_str(registered, "llamacpp");
    let mut order: Vec<String> = Vec::new();
    if has_rocm {
        if l {
            order.push(owned("llamacpp"));
        }
        if c {
            order.push(owned("candle"));
        }
    } else {
        if c {
            order.push(owned("candle"));
        }
        if l {
            order.push(owned("llamacpp"));
        }
    }
    if order.len() == 0 {
        assert(strs(order@) =~= Seq::<Seq<char>>::empty());
        return clone_strings(registered);
    }
    assert(strs(order@) =~= priority_of(device_views(devices@), strs(registered@)));
    order
}

/// `probe_compatible_backends`: the backends whose probe accepted the file.
pub open spec fn compatible_of(names: Seq<Seq<char>>, ok: Seq<bool>) -> Seq<Seq<char>>
    decreases names.len(),
{
    if names.len() == 0 || ok.len() != names.len() {
        seq![]
    } else if ok.last() {
        compatible_of(names.drop_last(), ok.drop_last()).push(names.last())
    } else {
        compatible_of(names.drop_last(), ok.drop_last())
    }
}

pub fn probe_compatible_backends(names: &Vec<String>, can_load: &Vec<bool>) -> (r: Vec<String>)
    requires
        names.len() == can_load.len(),
    ensures
        strs(r@) == compatible_of(strs(names@), can_load@),
{
    let mut out: Vec<String> = Vec::new();
    let mut i: usize = 0;
    while i < names.len()
        invariant
            i <= names.len(),
            names.len() == can_load.len(),
            strs(out@) == compatible_of(strs(names@.subrange(0, i as int)), can_load@.subrange(0, i as int)),
        decreases names.len() - i,
    {
        assert(strs(names@.subrange(0, i + 1)).drop_last() =~= strs(names@.subrange(0, i as int)));
        assert(can_load@.subrange(0, i + 1).drop_last() =~= can_load@.subrange(0, i as int));
        assert(strs(names@.subrange(0, i + 1)).last() == names@[i as int]@);
        if can_load[i] {
            let s = names[i].clone();
            let ghost before = out@;
            out.push(s);
            assert(strs(out@) =~= strs(before).push(s@));
        }
        i = i + 1;
    }
    assert(names@.subrange(0, names@.len() as int) =~= names@);
    assert(can_load@.subrange(0, can_load@.len() as int) =~= can_load@);
    out
}

// ---------------------------------------------------------------------------
// VRAM budget
// ---------------------------------------------------------------------------

/// What the VRAM budget asks before loading a model.
#[derive(Debug)]
pub enum VramPlan {
    /// The model fits.
    Fits,
    /// Unload least recently used models to free this many bytes first.
    Evict(u64),
    /// The model does not fit and eviction is off.
    Insufficient(ZonkyError),
}

/// Free VRAM on the device after the loaded models' share.
pub open spec fn free_vram(device: DeviceView, used: nat) -> nat {
    if vram_free_of(device) >= used {
        (vram_free_of(device) - used) as nat
    } else {
        0
    }
}

/// `load_model`'s budget check: only GPUs have a budget; when the estimate
/// exceeds what is free, evict the difference or refuse.
pub fn vram_plan(device: &GpuDevice, estimated: u64, used: u128, auto_evict: bool) -> (r: VramPlan)
    ensures
        !is_gpu_of(device@) ==> r is Fits,
        is_gpu_of(device@) && estimated <= free_vram(device@, used as nat) ==> r is Fits,
        is_gpu_of(device@) && estimated > free_vram(device@, used as nat) && auto_evict ==> (r matches VramPlan::Evict(n) && n == estimated - free_vram(device@, used as nat)),
        is_gpu_of(device@) && estimated > free_vram(device@, used as nat) && !auto_evict ==> (r matches VramPlan::Insufficient(ZonkyError::InsufficientVram { needed, available }) && needed == estimated && available == free_vram(device@, used as nat)),
{
    if !device.is_gpu() {
        return VramPlan::Fits;
    }
    let available = device.vram_free();
    let free: u64 = if (available as u128) >= used {
        ((available as u128) - used) as u64
    } else {
        0
    };
    if estimated > free {
        if auto_evict {
            VramPlan::Evict(estimated - free)
        } else {
            VramPlan::Insufficient(ZonkyError::InsufficientVram { needed: estimated, available: free })
        }
    } else {
        VramPlan::Fits
    }
}

// ---------------------------------------------------------------------------
// Resolving and listing models
// ---------------------------------------------------------------------------

/// `resolve_model_path`: the id itself when it names an existing file, else
/// the path of the first cached model whose id, alias or repo id it is, when
/// that file exists.
pub open spec fn resolve_of(model_id: Seq<char>, direct_exists: bool, local: Seq<ModelEntry>, exists: Seq<bool>) -> Result<Seq<char>, Seq<char>> {
    let j = first_match(local, LookupKey::IdOrAlias(model_id), 0);
    if direct_exists {
        Ok(model_id)
    } else if j < local.len() && exists[j] {
        Ok(local[j].path)
    } else {
        Err("Cannot find model '"@ + model_id + "'. Use `zonky pull` to download it first."@)
    }
}

/// Resolves a model id to a file, given whether the id itself is an existing
/// path and whether each cached model's file exists.
pub fn resolve_model_path(model_id: &str, direct_exists: bool, local: &Vec<LocalModel>, exists: &Vec<bool>) -> (r: Result<String, ZonkyError>)
    requires
        exists.len() == local.len(),
    ensures
        match resolve_of(model_id@, direct_exists, entries(local@), exists@) {
            Ok(p) => r matches Ok(s) && s@ == p,
            Err(m) => r matches Err(ZonkyError::ModelNotFound(s)) && s@ == m,
        },
{
    if direct_exists {
        return Ok(owned(model_id));
    }
    let q = chars_of(model_id);
    let mut i: usize = 0;
    while i < local.len()
        invariant
            i <= local.len(),
            exists.len() == local.len(),
            !direct_exists,
            q@ == model_id@,
            first_match(entries(local@), LookupKey::IdOrAlias(model_id@), 0) == first_match(entries(local@), LookupKey::IdOrAlias(model_id@), i as int),
        decreases local.len() - i,
    {
        assert(entries(local@)[i as int] == local@[i as int]@);
        let m = &local[i];
        let a = chars_of(m.id.as_str());
        let hit_alias = match &m.alias {
            Some(al) => {
                let b = chars_of(al.as_str());
                eq_chars(&b, &q)
            },
            None => false,
        };
        let c = chars_of(m.repo_id.as_str());
        if eq_chars(&a, &q) || hit_alias || eq_chars(&c, &q) {
            if exists[i] {
                return Ok(m.path.clone());
            }
            return Err(model_not_found(model_id));
        }
        i = i + 1;
    }
    Err(model_not_found(model_id))
}

fn model_not_found(model_id: &str) -> (e: ZonkyError)
    ensures
        e matches ZonkyError::ModelNotFound(s) && s@ == "Cannot find model '"@ + model_id@ + "'. Use `zonky pull` to download it first."@,
{
    let mut msg = chars_of("Cannot find model '");
    extend_str(&mut msg, model_id);
    extend_str(&mut msg, "'. Use `zonky pull` to download it first.");
    ZonkyError::ModelNotFound(string_of(&msg))
}

/// `list_all_models`: every cached model, with whether it is loaded, by which
/// backend and with how much VRAM, and which backends can load it.
pub fn list_all_models(local: &Vec<LocalModel>, table: &ModelTable, compatible: &Vec<Vec<String>>) -> (r: Vec<ModelInfo>)
    requires
        compatible.len() == local.len(),
    ensures
        r@.len() == local@.len(),
        forall|k: int| 0 <= k < local@.len() ==> {
            let lm = #[trigger] local@[k]@;
            let i = r@[k]@;
            &&& i.id == lm.id
            &&& i.object == "model"@
            &&& i.created == 0
            &&& i.owned_by == "local"@
            &&& i.architecture == lm.architecture
            &&& i.quantization == lm.quantization
            &&& i.parameters is None
            &&& i.file_size == Some(lm.file_size)
            &&& i.loaded == has_id(table@, lm.id)
            &&& (has_id(table@, lm.id) ==> exists|t: int| 0 <= t < table@.len() && table@[t].id == lm.id && i.vram_usage == Some(table@[t].vram) && i.backend == Some(table@[t].backend))
            &&& (!has_id(table@, lm.id) ==> i.vram_usage is None && i.backend is None)
            &&& i.compatible_backends == strs(compatible@[k]@)
        },
{
    let mut out: Vec<ModelInfo> = Vec::new();
    let mut i: usize = 0;
    while i < local.len()
        invariant
            i <= local.len(),
            compatible.len() == local.len(),
            out@.len() == i,
            forall|k: int| 0 <= k < i ==> {
                let lm = #[trigger] local@[k]@;
                let x = out@[k]@;
                &&& x.id == lm.id
                &&& x.object == "model"@
                &&& x.created == 0
                &&& x.owned_by == "local"@
                &&& x.architecture == lm.architecture
                &&& x.quantization == lm.quantization
                &&& x.parameters is None
                &&& x.file_size == Some(lm.file_size)
                &&& x.loaded == has_id(table@, lm.id)
                &&& (has_id(table@, lm.id) ==> exists|t: int| 0 <= t < table@.len() && table@[t].id == lm.id && x.vram_usage == Some(table@[t].vram) && x.backend == Some(table@[t].backend))
                &&& (!has_id(table@, lm.id) ==> x.vram_usage is None && x.backend is None)
                &&& x.compatible_backends == strs(compatible@[k]@)
            },
        decreases local.len() - i,
    {
        let lm = &local[i];
        let entry = table.get(lm.id.as_str());
        let (vram, backend, loaded) = match entry {
            Some(e) => (Some(e.vram_usage), Some(e.backend_name.clone()), true),
            None => (None, None, false),
        };
        proof {
            if has_id(table@, lm.id@) {
                let e = entry->0;
                let t = choose|t: int| 0 <= t < table@.len() && table@[t] == e@;
                assert(table@[t].id == lm.id@);
            }
        }
        let info = ModelInfo {
            id: lm.id.clone(),
            object: owned("model"),
            created: 0,
            owned_by: owned("local"),
            architecture: clone_opt(&lm.architecture),
            quantization: clone_opt(&lm.quantization),
            parameters: None,
            file_size: Some(lm.file_size),
            vram_usage: vram,
            loaded,
            backend,
            compatible_backends: clone_strings(&compatible[i]),
        };
        out.push(info);
        i = i + 1;
    }
    out
}

/// The record of a freshly loaded model whose backend reports none.
pub open spec fn fallback_info(model_id: Seq<char>, created: i64, vram: u64, backend: Seq<char>) -> InfoView {
    InfoView {
        id: model_id,
        object: "model"@,
        created,
        owned_by: "local"@,
        architecture: None,
        quantization: None,
        parameters: None,
        file_size: None,
        vram_usage: Some(vram),
        loaded: true,
        backend: Some(backend),
        compatible_backends: seq![],
    }
}

pub fn fallback_model_info(model_id: &str, created: i64, vram: u64, backend: &str) -> (r: ModelInfo)
    ensures
        r@ == fallback_info(model_id@, created, vram, backend@),
{
    let r = ModelInfo {
        id: owned(model_id),
        object: owned("model"),
        created,
        owned_by: owned("local"),
        architecture: None,
        quantization: None,
        parameters: None,
        file_size: None,
        vram_usage: Some(vram),
        loaded: true,
        backend: Some(owned(backend)),
        compatible_backends: Vec::new(),
    };
    assert(strs(r.compatible_backends@) =~= seq![]);
    r
}


// ---------------------------------------------------------------------------
// Loading a model, step by step
// ---------------------------------------------------------------------------

/// `load_model` refuses a model that is already loaded.
pub fn check_not_loaded(table: &ModelTable, model_id: &str) -> (r: Result<(), ZonkyError>)
    ensures
        has_id(table@, model_id@) ==> (r matches Err(ZonkyError::ModelAlreadyLoaded(s)) && s@ == model_id@),
        !has_id(table@, model_id@) ==> r is Ok,
{
    if table.contains(model_id) {
        Err(ZonkyError::ModelAlreadyLoaded(owned(model_id)))
    } else {
        Ok(())
    }
}

/// The backends `load_model` tries, in order, for a backend choice.
pub open spec fn backend_order_of(choice: BackendChoice, devices: Seq<DeviceView>, registered: Seq<Seq<char>>) -> Seq<Seq<char>> {
    match choice {
        BackendChoice::Candle => seq!["candle"@],
        BackendChoice::LlamaCpp => seq!["llamacpp"@],
        BackendChoice::Auto => priority_of(devices, registered),
    }
}

pub fn backend_order(choice: BackendChoice, devices: &Vec<GpuDevice>, registered: &Vec<String>) -> (r: Vec<String>)
    ensures
        strs(r@) == backend_order_of(choice, device_views(devices@), strs(registered@)),
{
    match choice {
        BackendChoice::Candle => {
            let r = vec![owned("candle")];
            assert(strs(r@) =~= seq!["candle"@]);
            r
        },
        BackendChoice::LlamaCpp => {
            let r = vec![owned("llamacpp")];
            assert(strs(r@) =~= seq!["llamacpp"@]);
            r
        },
        BackendChoice::Auto => backend_priority_order(devices, registered),
    }
}

/// Why a backend is passed over before any load is tried: it is not
/// registered, or its probe refused the file (with the probe's reason, or
/// "Incompatible").
pub open spec fn skip_reason_of(registered: bool, compatible: bool, reason: Option<Seq<char>>) -> Option<Seq<char>> {
    if !registered {
        Some("Backend not available"@)
    } else if !compatible {
        match reason {
            Some(m) => Some(m),
            None => Some("Incompatible"@),
        }
    } else {
        None
    }
}

pub fn skip_reason(registered: bool, compat: &BackendCompatibility) -> (r: Option<String>)
    ensures
        opt_str(r) == skip_reason_of(registered, compat.compatible, opt_str(compat.reason)),
{
    if !registered {
        Some(owned("Backend not available"))
    } else if !compat.compatible {
        match &compat.reason {
            Some(m) => Some(m.clone()),
            None => Some(owned("Incompatible")),
        }
    } else {
        None
    }
}

/// One line of the all-backends-failed report.
pub open spec fn failure_line(e: (Seq<char>, Seq<char>)) -> Seq<char> {
    "  "@ + e.0 + ": "@ + e.1
}

/// The message of `load_model` when every backend failed.
pub open spec fn all_failed_message(model_id: Seq<char>, errors: Seq<(Seq<char>, Seq<char>)>) -> Seq<char> {
    "Failed to load model '"@ + model_id + "' — all backends failed:\n"@ + join(errors.map_values(|e: (Seq<char>, Seq<char>)| failure_line(e)), "\n"@)
}

/// The value of a [`LoadAttempt`].
pub struct AttemptView {
    pub model_id: Seq<char>,
    pub order: Seq<Seq<char>>,
    pub next: nat,
    pub errors: Seq<(Seq<char>, Seq<char>)>,
}

/// A walk's record is consistent: one entry per backend passed so far, in
/// the walk's order, each naming its backend.
pub open spec fn attempt_wf(a: AttemptView) -> bool {
    &&& a.errors.len() == a.next
    &&& a.next <= a.order.len()
    &&& forall|k: int| 0 <= k < a.errors.len() ==> (#[trigger] a.errors[k]).0 == a.order[k]
}

/// The backends `load_model` walks through for one model, and the reason
/// each one that was passed over or failed gave.
pub struct LoadAttempt {
    model_id: String,
    order: Vec<String>,
    errors: Vec<(String, String)>,
}

pub open spec fn pair_views(v: Seq<(String, String)>) -> Seq<(Seq<char>, Seq<char>)> {
    v.map_values(|p: (String, String)| (p.0@, p.1@))
}

impl View for LoadAttempt {
    type V = AttemptView;

    closed spec fn view(&self) -> AttemptView {
        AttemptView {
            model_id: self.model_id@,
            order: strs(self.order@),
            next: self.errors@.len(),
            errors: pair_views(self.errors@),
        }
    }
}

impl LoadAttempt {
    #[verifier::type_invariant]
    closed spec fn inv(self) -> bool {
        &&& self.errors@.len() <= self.order@.len()
        &&& forall|k: int| 0 <= k < self.errors@.len() ==> #[trigger] self.errors@[k].0@ == self.order@[k]@
    }

    proof fn lemma_wf(self)
        requires
            self.inv(),
        ensures
            attempt_wf(self@),
    {
        assert forall|k: int| 0 <= k < self@.errors.len() implies (#[trigger] self@.errors[k]).0
            == self@.order[k] by {
            assert(self@.errors[k] == (self.errors@[k].0@, self.errors@[k].1@));
            assert(self@.order[k] == self.order@[k]@);
        }
    }

    /// Starts the walk over `order` for `model_id`.
    pub fn new(model_id: &str, order: Vec<String>) -> (r: LoadAttempt)
        ensures
            r@ == (AttemptView { model_id: model_id@, order: strs(order@), next: 0, errors: seq![] }),
            attempt_wf(r@),
    {
        let r = LoadAttempt { model_id: owned(model_id), order, errors: Vec::new() };
        assert(pair_views(r.errors@) =~= seq![]);
        r
    }

    /// The backend to try next, if any is left.
    pub fn current(&self) -> (r: Option<String>)
        ensures
            self@.next < self@.order.len() ==> (r matches Some(b) && b@ == self@.order[self@.next as int]),
            self@.next >= self@.order.len() ==> r is None,
            attempt_wf(self@),
    {
        proof {
            use_type_invariant(self);
            self.lemma_wf();
        }
        let next = self.errors.len();
        if next < self.order.len() {
            assert(strs(self.order@)[next as int] == self.order@[next as int]@);
            Some(self.order[next].clone())
        } else {
            None
        }
    }

    /// The current backend was passed over or failed for `reason`; moves on
    /// to the next one.
    pub fn fail(&mut self, reason: String)
        requires
            old(self)@.next < old(self)@.order.len(),
        ensures
            final(self)@ == (AttemptView {
                next: old(self)@.next + 1,
                errors: old(self)@.errors.push((old(self)@.order[old(self)@.next as int], reason@)),
                ..old(self)@
            }),
            attempt_wf(final(self)@),
    {
        proof {
            use_type_invariant(&*self);
        }
        let next = self.errors.len();
        let name = self.order[next].clone();
        let mut errors: Vec<(String, String)> = Vec::new();
        std::mem::swap(&mut errors, &mut self.errors);
        let ghost before = errors@;
        let ghost nv = name@;
        errors.push((name, reason));
        proof {
            assert(strs(self.order@)[next as int] == self.order@[next as int]@);
            assert(pair_views(errors@) =~= pair_views(before).push((nv, reason@)));
            assert forall|k: int| 0 <= k < next + 1 implies #[trigger] errors@[k].0@ == self.order@[k]@ by {
                if k < next {
                    assert(errors@[k] == before[k]);
                }
            }
        }
        self.errors = errors;
        proof {
            use_type_invariant(&*self);
            self.lemma_wf();
        }
    }

    /// The error `load_model` returns when no backend loaded the model.
    pub fn failure(&self) -> (e: ZonkyError)
        ensures
            e matches ZonkyError::BackendError(s) && s@ == all_failed_message(self@.model_id, self@.errors),
            attempt_wf(self@),
    {
        proof {
            use_type_invariant(self);
            self.lemma_wf();
        }
        let mut lines: Vec<Vec<char>> = Vec::new();
        let mut i: usize = 0;
        let ghost ev = pair_views(self.errors@);
        while i < self.errors.len()
            invariant
                i <= self.errors.len(),
                ev == pair_views(self.errors@),
                pieces(&lines) == ev.subrange(0, i as int).map_values(|e: (Seq<char>, Seq<char>)| failure_line(e)),
            decreases self.errors.len() - i,
        {
            let mut line = chars_of("  ");
            extend_str(&mut line, self.errors[i].0.as_str());
            extend_str(&mut line, ": ");
            extend_str(&mut line, self.errors[i].1.as_str());
            let ghost before = lines@;
            let ghost lv = line@;
            lines.push(line);
            proof {
                lemma_pieces_push(before, lines@, line);
                assert(ev[i as int] == (self.errors@[i as int].0@, self.errors@[i as int].1@));
                assert(lv == failure_line(ev[i as int]));
                assert(ev.subrange(0, i + 1).map_values(|e: (Seq<char>, Seq<char>)| failure_line(e)) =~= ev.subrange(0, i as int).map_values(|e: (Seq<char>, Seq<char>)| failure_line(e)).push(lv));
            }
            i = i + 1;
        }
        assert(ev.subrange(0, ev.len() as int) =~= ev);
        let sep = chars_of("\n");
        let body = join_exec(&lines, &sep);
        let mut msg = chars_of("Failed to load model '");
        extend_str(&mut msg, self.model_id.as_str());
        extend_str(&mut msg, "' — all backends failed:\n");
        extend_chars(&mut msg, &body);
        ZonkyError::BackendError(string_of(&msg))
    }
}


/// A walk that has no backend left to try (`current` gives `None`) failed
/// on every backend of its order: its report has exactly one line per
/// backend, in the order they were tried, each naming the backend and the
/// reason it gave.
pub proof fn lemma_exhausted_walk_reports_each_backend(a: AttemptView)
    requires
        attempt_wf(a),
        a.next >= a.order.len(),
    ensures
        a.errors.len() == a.order.len(),
        forall|k: int| 0 <= k < a.order.len() ==> (#[trigger] a.errors[k]).0 == a.order[k],
        all_failed_message(a.model_id, a.errors) == "Failed to load model '"@ + a.model_id
            + "' — all backends failed:\n"@ + join(
            Seq::new(a.order.len(), |k: int| "  "@ + a.order[k] + ": "@ + a.errors[k].1),
            "\n"@,
        ),
{
    let lines = Seq::new(a.order.len(), |k: int| "  "@ + a.order[k] + ": "@ + a.errors[k].1);
    assert(a.errors.map_values(|e: (Seq<char>, Seq<char>)| failure_line(e)) =~= lines);
}

/// The record kept for a freshly loaded model: the backend's own, or, when
/// the backend reports none, the fallback record stamped with the current
/// time.
pub fn loaded_info(reported: Option<ModelInfo>, model_id: &str, vram: u64, backend: &str) -> (r: ModelInfo)
    ensures
        reported matches Some(i) ==> r@ == i@,
        reported is None ==> exists|created: i64| r@ == fallback_info(model_id@, created, vram, backend@),
{
    match reported {
        Some(i) => i,
        None => {
            let created = unix_time();
            let r = fallback_model_info(model_id, created, vram, backend);
            assert(r@ == fallback_info(model_id@, created, vram, backend@));
            r
        },
    }
}

/// `unload_model`'s bookkeeping: the entry leaves the table, or the model is
/// not loaded.
pub fn unload_model(table: &mut ModelTable, model_id: &str) -> (r: Result<LoadedModel, ZonkyError>)
    ensures
        final(table)@ == without(old(table)@, model_id@),
        has_id(old(table)@, model_id@) ==> (r matches Ok(m) && m@.id == model_id@ && old(table)@.contains(m@)),
        !has_id(old(table)@, model_id@) ==> (r matches Err(ZonkyError::ModelNotFound(s)) && s@ == model_id@),
{
    match table.remove(model_id) {
        Some(m) => Ok(m),
        None => Err(ZonkyError::ModelNotFound(owned(model_id))),
    }
}


// ---------------------------------------------------------------------------
// Laws of the table, the eviction plan and the backend order
// ---------------------------------------------------------------------------

/// Recording a model (`ModelTable::insert`): afterwards its id is loaded
/// exactly once, with the new entry; every other id is loaded as before;
/// and removing the id again gives what removing it from the old table
/// gives.
pub proof fn lemma_insert_then_lookup(s: Seq<LoadedView>, v: LoadedView)
    requires
        unique_ids(s),
    ensures
        unique_ids(without(s, v.id).push(v)),
        has_id(without(s, v.id).push(v), v.id),
        forall|i: int| 0 <= i < without(s, v.id).push(v).len() && (#[trigger] without(s, v.id).push(v)[i]).id == v.id
            ==> without(s, v.id).push(v)[i] == v,
        forall|x: Seq<char>| x != v.id ==> (has_id(without(s, v.id).push(v), x) == has_id(s, x)),
        without(without(s, v.id).push(v), v.id) == without(s, v.id),
{
    let w = without(s, v.id);
    let t = w.push(v);
    lemma_without(s, v.id);
    assert(t[t.len() - 1].id == v.id);
    assert forall|a: int, b: int| 0 <= a < b < t.len() implies t[a].id != t[b].id by {
        if b == t.len() - 1 {
            assert(w[a].id != v.id) by {
                if w[a].id == v.id {
                    assert(has_id(w, v.id));
                }
            }
        } else {
            assert(t[a] == w[a] && t[b] == w[b]);
        }
    }
    assert forall|i: int| 0 <= i < t.len() && (#[trigger] t[i]).id == v.id implies t[i] == v by {
        if i < t.len() - 1 {
            assert(t[i] == w[i]);
            assert(has_id(w, v.id));
        }
    }
    assert forall|x: Seq<char>| x != v.id implies (has_id(t, x) == has_id(s, x)) by {
        if has_id(t, x) {
            let i = choose|i: int| 0 <= i < t.len() && #[trigger] t[i].id == x;
            assert(t[i] == w[i]);
            assert(has_id(w, x));
        }
        if has_id(w, x) {
            let i = choose|i: int| 0 <= i < w.len() && #[trigger] w[i].id == x;
            assert(t[i].id == x);
        }
    }
    assert(t.drop_last() =~= w);
    lemma_without_absent(w, v.id);
}

/// VRAM freed by evicting `eviction_of(s, needed, freed)`, counting the
/// `freed` bytes already free.
pub open spec fn eviction_freed(s: Seq<LoadedView>, needed: nat, freed: nat) -> nat
    decreases s.len(),
{
    if freed >= needed || s.len() == 0 {
        freed
    } else {
        let k = lru_index(s, s.len() as int);
        proof {
            lemma_lru_index(s, s.len() as int);
        }
        eviction_freed(s.remove(k), needed, freed + s[k].vram as nat)
    }
}

proof fn lemma_total_vram_remove(s: Seq<LoadedView>, k: int)
    requires
        0 <= k < s.len(),
    ensures
        total_vram(s.remove(k)) + s[k].vram == total_vram(s),
    decreases s.len(),
{
    if k == s.len() - 1 {
        assert(s.remove(k) =~= s.drop_last());
    } else {
        let p = s.drop_last();
        lemma_total_vram_remove(p, k);
        assert(s.remove(k).drop_last() =~= p.remove(k));
        assert(s.remove(k).last() == s.last());
    }
}

/// Eviction (`evict_lru`) frees at least the bytes asked for whenever the
/// loaded models hold that much, and every model it unloads is loaded.
pub proof fn lemma_eviction_frees_enough(s: Seq<LoadedView>, needed: nat, freed: nat)
    ensures
        total_vram(s) + freed >= needed ==> eviction_freed(s, needed, freed) >= needed,
        forall|j: int| 0 <= j < eviction_of(s, needed, freed).len() ==> has_id(s, #[trigger] eviction_of(s, needed, freed)[j]),
    decreases s.len(),
{
    if freed >= needed || s.len() == 0 {
    } else {
        let k = lru_index(s, s.len() as int);
        lemma_lru_index(s, s.len() as int);
        let r = s.remove(k);
        lemma_eviction_frees_enough(r, needed, freed + s[k].vram as nat);
        lemma_total_vram_remove(s, k);
        let e = eviction_of(s, needed, freed);
        let er = eviction_of(r, needed, freed + s[k].vram as nat);
        assert(e == seq![s[k].id] + er);
        assert forall|j: int| 0 <= j < e.len() implies has_id(s, #[trigger] e[j]) by {
            if j == 0 {
                assert(s[k].id == e[0]);
            } else {
                assert(e[j] == er[j - 1]);
                assert(has_id(r, er[j - 1]));
                let i = choose|i: int| 0 <= i < r.len() && #[trigger] r[i].id == er[j - 1];
                if i < k {
                    assert(s[i] == r[i]);
                } else {
                    assert(s[i + 1] == r[i]);
                }
            }
        }
    }
}

/// With each model loaded once, eviction names each model at most once.
pub proof fn lemma_eviction_distinct(s: Seq<LoadedView>, needed: nat, freed: nat)
    requires
        unique_ids(s),
    ensures
        forall|i: int, j: int|
            0 <= i < j < eviction_of(s, needed, freed).len() ==> eviction_of(s, needed, freed)[i]
                != eviction_of(s, needed, freed)[j],
    decreases s.len(),
{
    if freed >= needed || s.len() == 0 {
    } else {
        let k = lru_index(s, s.len() as int);
        lemma_lru_index(s, s.len() as int);
        let r = s.remove(k);
        let f2 = (freed + s[k].vram) as nat;
        assert(unique_ids(r)) by {
            assert forall|a: int, b: int| 0 <= a < b < r.len() implies r[a].id != r[b].id by {
                let a2 = if a < k { a } else { a + 1 };
                let b2 = if b < k { b } else { b + 1 };
                assert(r[a] == s[a2]);
                assert(r[b] == s[b2]);
            }
        }
        assert(!has_id(r, s[k].id)) by {
            if has_id(r, s[k].id) {
                let i = choose|i: int| 0 <= i < r.len() && #[trigger] r[i].id == s[k].id;
                let i2 = if i < k { i } else { i + 1 };
                assert(r[i] == s[i2]);
            }
        }
        lemma_eviction_distinct(r, needed, f2);
        lemma_eviction_frees_enough(r, needed, f2);
        let e = eviction_of(s, needed, freed);
        let er = eviction_of(r, needed, f2);
        assert(e == seq![s[k].id] + er);
        assert forall|i: int, j: int| 0 <= i < j < e.len() implies e[i] != e[j] by {
            if i == 0 {
                assert(e[j] == er[j - 1]);
                assert(has_id(r, er[j - 1]));
            } else {
                assert(e[i] == er[i - 1]);
                assert(e[j] == er[j - 1]);
            }
        }
    }
}

/// The first model evicted is one whose last use is not later than any
/// other's.
pub proof fn lemma_eviction_lru_first(s: Seq<LoadedView>, needed: nat)
    requires
        s.len() > 0,
        needed > 0,
    ensures
        eviction_of(s, needed, 0).len() > 0,
        exists|k: int|
            0 <= k < s.len() && s[k].id == eviction_of(s, needed, 0)[0] && forall|i: int|
                0 <= i < s.len() ==> s[k].last_used <= #[trigger] s[i].last_used,
{
    let k = lru_index(s, s.len() as int);
    lemma_lru_index(s, s.len() as int);
    assert(eviction_of(s, needed, 0)[0] == s[k].id);
}

/// With an AMD ROCm GPU llama.cpp is tried first when it is registered;
/// otherwise Candle is, when it is registered; and only registered backends
/// are ever tried.
pub proof fn lemma_priority_order(devices: Seq<DeviceView>, registered: Seq<Seq<char>>)
    ensures
        any_rocm(devices) && registered.contains("llamacpp"@) ==> priority_of(devices, registered)[0] == "llamacpp"@,
        !any_rocm(devices) && registered.contains("candle"@) ==> priority_of(devices, registered)[0] == "candle"@,
        forall|j: int| 0 <= j < priority_of(devices, registered).len() ==> registered.contains(#[trigger] priority_of(devices, registered)[j]),
        priority_of(devices, registered).len() > 0 || registered.len() == 0,
{
    let p = priority_of(devices, registered);
    assert forall|j: int| 0 <= j < p.len() implies registered.contains(#[trigger] p[j]) by {
        let c = registered.contains("candle"@);
        let l = registered.contains("llamacpp"@);
        if !(c || l) {
            assert(p == registered);
            assert(registered[j] == p[j]);
        }
    }
    if registered.len() > 0 {
        assert(registered.contains(registered[0]));
    }
}

} // verus!
