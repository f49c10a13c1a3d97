//! GPU compute dependencies: which packages a detected GPU needs, whether they
//! are present, and the single command that installs the missing ones.
use vstd::prelude::*;
use vstd::string::*;

use crate::gpu::{
    detect_devices, first_gpu, first_gpu_of, first_line_with, first_line_with_exec, host_devices,
    DeviceView, GpuDevice, HostScan,
};
use crate::text::{
    chars_of, decimal, decimal_exec, eq_chars, extend_chars, extend_str, join, join_exec,
    lemma_pieces_push, lemma_split_nonempty, lines, lines_exec, opt_str, owned, pieces, signed_decimal,
    signed_decimal_exec, split, split_exec, string_of, strip_prefix, strip_prefix_exec, trim_char,
    trim_char_exec, trim_start_matches, trim_start_matches_exec, words, words_exec,
};

verus! {

broadcast use vstd::seq_lib::group_seq_properties;

/// A required package that may or may not be installed.
#[derive(Debug, Clone)]
pub struct Dependency {
    pub name: String,
    pub description: String,
    pub installed: bool,
    pub install_cmd: Option<String>,
    pub required_by: String,
}

/// Overall setup status for GPU compute.
#[derive(Debug, Clone)]
pub struct SetupStatus {
    pub gpu_vendor: String,
    pub gpu_name: String,
    pub compute_ready: bool,
    pub needs_reboot: bool,
    pub deps: Vec<Dependency>,
    pub summary: String,
}

pub struct DepView {
    pub name: Seq<char>,
    pub description: Seq<char>,
    pub installed: bool,
    pub install_cmd: Option<Seq<char>>,
    pub required_by: Seq<char>,
}

pub struct StatusView {
    pub gpu_vendor: Seq<char>,
    pub gpu_name: Seq<char>,
    pub compute_ready: bool,
    pub needs_reboot: bool,
    pub deps: Seq<DepView>,
    pub summary: Seq<char>,
}

impl View for Dependency {
    type V = DepView;

    open spec fn view(&self) -> DepView {
        DepView {
            name: self.name@,
            description: self.description@,
            installed: self.installed,
            install_cmd: opt_str(self.install_cmd),
            required_by: self.required_by@,
        }
    }
}

pub open spec fn dep_views(v: Seq<Dependency>) -> Seq<DepView> {
    v.map_values(|d: Dependency| d@)
}

impl View for SetupStatus {
    type V = StatusView;

    open spec fn view(&self) -> StatusView {
        StatusView {
            gpu_vendor: self.gpu_vendor@,
            gpu_name: self.gpu_name@,
            compute_ready: self.compute_ready,
            needs_reboot: self.needs_reboot,
            deps: dep_views(self.deps@),
            summary: self.summary@,
        }
    }
}

/// What the setup check observed on the host.
pub struct SetupProbe {
    /// `/dev/kfd` exists.
    pub dev_kfd: bool,
    /// `/opt/rocm` exists.
    pub opt_rocm: bool,
    /// `/opt/rocm/lib/libamdhip64.so` exists.
    pub hip_opt_lib: bool,
    /// `/usr/lib/libamdhip64.so` exists.
    pub hip_usr_lib: bool,
    /// `/opt/rocm/lib/libhipblas.so` exists.
    pub hipblas_lib: bool,
    /// `/dev/nvidia0` exists.
    pub dev_nvidia0: bool,
    /// `/usr/local/cuda` exists.
    pub usr_local_cuda: bool,
    /// `/usr/local/cuda/lib64/libcublas.so` exists.
    pub cublas_cuda_lib: bool,
    /// `/usr/lib/x86_64-linux-gnu/libcublas.so` exists.
    pub cublas_usr_lib: bool,
    /// `which rocminfo` succeeded.
    pub which_rocminfo: bool,
    /// `which hipcc` succeeded.
    pub which_hipcc: bool,
    /// `which nvidia-smi` succeeded.
    pub which_nvidia_smi: bool,
    /// `which nvcc` succeeded.
    pub which_nvcc: bool,
    /// `which gcc` succeeded.
    pub which_gcc: bool,
    /// `which cc` succeeded.
    pub which_cc: bool,
    /// `which cmake` succeeded.
    pub which_cmake: bool,
    /// `which pkg-config` succeeded.
    pub which_pkg_config: bool,
    /// `pkg-config --exists hipblas` succeeded.
    pub pkg_hipblas: bool,
    /// `pkg-config --exists cublas` succeeded.
    pub pkg_cublas: bool,
    /// Contents of `/etc/os-release`.
    pub os_release: Option<String>,
    /// The `USER` environment variable.
    pub user: Option<String>,
    /// Output of `id -nG`, when it ran.
    pub session_groups: Option<String>,
    /// Contents of `/etc/group`.
    pub etc_group: Option<String>,
}

// ---------------------------------------------------------------------------
// Groups and distribution
// ---------------------------------------------------------------------------

/// The current session lists `group` in `id -nG`.
pub open spec fn in_session_group(p: SetupProbe, group: Seq<char>) -> bool {
    match opt_str(p.session_groups) {
        Some(out) => words(out).contains(group),
        None => false,
    }
}

/// One `/etc/group` line names `group` and lists `user` as a member.
pub open spec fn group_line_has(line: Seq<char>, group: Seq<char>, user: Seq<char>) -> bool {
    let parts = split(line, ":"@);
    parts[0] == group && parts.len() > 3 && split(parts[3], ","@).contains(user)
}

/// The `USER` name, empty when unset.
pub open spec fn user_name(p: SetupProbe) -> Seq<char> {
    match opt_str(p.user) {
        Some(u) => u,
        None => seq![],
    }
}

/// Some line of `/etc/group` lists `user` in `group`.
pub open spec fn etc_lists(content: Seq<char>, group: Seq<char>, user: Seq<char>) -> bool {
    exists|i: int|
        0 <= i < lines(content).len() && group_line_has(#[trigger] lines(content)[i], group, user)
}

/// `/etc/group` lists the `USER` as a member of `group`.
pub open spec fn in_etc_group(p: SetupProbe, group: Seq<char>) -> bool {
    if user_name(p).len() == 0 {
        false
    } else {
        match opt_str(p.etc_group) {
            Some(content) => etc_lists(content, group, user_name(p)),
            None => false,
        }
    }
}

pub open spec fn in_group(p: SetupProbe, group: Seq<char>) -> bool {
    in_session_group(p, group) || in_etc_group(p, group)
}

/// Group membership recorded in `/etc/group` but not active in the session,
/// for `render` or `video`.
pub open spec fn reboot_needed(p: SetupProbe) -> bool {
    ||| (in_etc_group(p, "render"@) && !in_session_group(p, "render"@))
    ||| (in_etc_group(p, "video"@) && !in_session_group(p, "video"@))
}

fn contains_piece(ps: &Vec<Vec<char>>, x: &Vec<char>) -> (r: bool)
    ensures
        r == pieces(ps).contains(x@),
{
    let mut i: usize = 0;
    while i < ps.len()
        invariant
            i <= ps.len(),
            forall|k: int| 0 <= k < i ==> pieces(ps)[k] != x@,
        decreases ps.len() - i,
    {
        assert(pieces(ps)[i as int] == ps@[i as int]@);
        if eq_chars(&ps[i], x) {
            return true;
        }
        i = i + 1;
    }
    false
}

/// Whether the current session is in `group` (output of `id -nG`).
pub fn session_in_group(p: &SetupProbe, group: &str) -> (r: bool)
    ensures
        r == in_session_group(*p, group@),
{
    match &p.session_groups {
        Some(out) => {
            let o = chars_of(out.as_str());
            let ws = words_exec(&o);
            let g = chars_of(group);
            contains_piece(&ws, &g)
        },
        None => false,
    }
}

fn group_line_has_exec(line: &Vec<char>, group: &Vec<char>, user: &Vec<char>) -> (r: bool)
    ensures
        r == group_line_has(line@, group@, user@),
{
    let colon = chars_of(":");
    let comma = chars_of(",");
    proof {
        reveal_strlit(":");
        reveal_strlit(",");
    }
    let parts = split_exec(line, &colon);
    proof {
        lemma_split_nonempty(line@, colon@);
    }
    assert(pieces(&parts)[0] == parts@[0]@);
    if !eq_chars(&parts[0], group) {
        return false;
    }
    if parts.len() <= 3 {
        return false;
    }
    assert(pieces(&parts)[3] == parts@[3]@);
    let members = split_exec(&parts[3], &comma);
    contains_piece(&members, user)
}

/// `user_in_group_etc`: whether `/etc/group` lists `USER` in `group`.
#[verifier::loop_isolation(false)]
pub fn user_in_group_etc(p: &SetupProbe, group: &str) -> (r: bool)
    ensures
        r == in_etc_group(*p, group@),
{
    let user: Vec<char> = match &p.user {
        Some(u) => chars_of(u.as_str()),
        None => Vec::new(),
    };
    assert(user@ == user_name(*p));
    if user.len() == 0 {
        return false;
    }
    match &p.etc_group {
        Some(content) => {
            let c = chars_of(content.as_str());
            let ls = lines_exec(&c);
            let g = chars_of(group);
            let mut i: usize = 0;
            while i < ls.len()
                invariant
                    i <= ls.len(),
                    pieces(&ls) == lines(c@),
                    forall|k: int| 0 <= k < i ==> !group_line_has(lines(c@)[k], g@, user@),
                decreases ls.len() - i,
            {
                assert(pieces(&ls)[i as int] == ls@[i as int]@);
                if group_line_has_exec(&ls[i], &g, &user) {
                    assert(group_line_has(lines(c@)[i as int], g@, user@));
                    assert(etc_lists(c@, g@, user@));
                    return true;
                }
                i = i + 1;
            }
            false
        },
        None => false,
    }
}

/// `user_in_group`: the session's groups, falling back to `/etc/group`.
pub fn user_in_group(p: &SetupProbe, group: &str) -> (r: bool)
    ensures
        r == in_group(*p, group@),
{
    session_in_group(p, group) || user_in_group_etc(p, group)
}

/// `needs_reboot_for_groups`: membership of `render` or `video` was added in
/// `/etc/group` but is not active in the current session.
pub fn needs_reboot_for_groups(p: &SetupProbe) -> (r: bool)
    ensures
        r == reboot_needed(*p),
{
    (user_in_group_etc(p, "render") && !session_in_group(p, "render")) || (user_in_group_etc(
        p,
        "video",
    ) && !session_in_group(p, "video"))
}

/// The distribution id of `/etc/os-release` (`ID=...`, quotes removed), or
/// `unknown`.
pub open spec fn distro_of(os_release: Option<Seq<char>>) -> Seq<char> {
    match os_release {
        Some(s) => match first_line_with(lines(s), "ID="@, 0) {
            Some(l) => trim_char(trim_start_matches(l, "ID="@), '"'),
            None => "unknown"@,
        },
        None => "unknown"@,
    }
}

pub fn detect_distro(os_release: &Option<String>) -> (r: String)
    ensures
        r@ == distro_of(opt_str(*os_release)),
{
    match os_release {
        Some(s) => {
            let c = chars_of(s.as_str());
            let ls = lines_exec(&c);
            let key = chars_of("ID=");
            match first_line_with_exec(&ls, &key) {
                Some(l) => {
                    let t = trim_start_matches_exec(&l, &key);
                    let q = trim_char_exec(&t, '"');
                    string_of(&q)
                },
                None => owned("unknown"),
            }
        },
        None => owned("unknown"),
    }
}

/// The ROCm package for a distribution: every family installs `rocm-dev`
/// through the apt form of the install command.
pub fn rocm_install_cmd(distro: &str) -> (r: String)
    ensures
        r@ == "apt:rocm-dev"@,
{
    owned("apt:rocm-dev")
}

// ---------------------------------------------------------------------------
// Dependency lists
// ---------------------------------------------------------------------------

pub open spec fn dep_of(
    name: Seq<char>,
    description: Seq<char>,
    installed: bool,
    cmd: Seq<char>,
    required_by: Seq<char>,
) -> DepView {
    DepView {
        name,
        description,
        installed,
        install_cmd: if installed {
            None
        } else {
            Some(cmd)
        },
        required_by,
    }
}

fn make_dep(name: &str, description: &str, installed: bool, cmd: &str, required_by: &str) -> (r:
    Dependency)
    ensures
        r@ == dep_of(name@, description@, installed, cmd@, required_by@),
{
    Dependency {
        name: owned(name),
        description: owned(description),
        installed,
        install_cmd: if installed {
            None
        } else {
            Some(owned(cmd))
        },
        required_by: owned(required_by),
    }
}

fn push_dep(deps: &mut Vec<Dependency>, d: Dependency)
    ensures
        dep_views(final(deps)@) == dep_views(old(deps)@).push(d@),
{
    let ghost before = deps@;
    deps.push(d);
    assert(dep_views(deps@) =~= dep_views(before).push(d@));
}

pub open spec fn build_tool_deps(p: SetupProbe) -> Seq<DepView> {
    seq![
        dep_of(
            "gcc"@,
            "C compiler (required to build native code)"@,
            p.which_gcc || p.which_cc,
            "apt:build-essential"@,
            "Rust native compilation"@,
        ),
        dep_of(
            "cmake"@,
            "Build system generator"@,
            p.which_cmake,
            "apt:cmake"@,
            "Candle native builds"@,
        ),
        dep_of(
            "pkg-config"@,
            "Package configuration tool"@,
            p.which_pkg_config,
            "apt:pkg-config"@,
            "Rust native compilation"@,
        ),
    ]
}

/// `check_build_tools`: appends the C compiler, CMake and pkg-config.
pub fn check_build_tools(deps: &mut Vec<Dependency>, p: &SetupProbe)
    ensures
        dep_views(final(deps)@) == dep_views(old(deps)@) + build_tool_deps(*p),
{
    push_dep(
        deps,
        make_dep(
            "gcc",
            "C compiler (required to build native code)",
            p.which_gcc || p.which_cc,
            "apt:build-essential",
            "Rust native compilation",
        ),
    );
    push_dep(
        deps,
        make_dep("cmake", "Build system generator", p.which_cmake, "apt:cmake", "Candle native builds"),
    );
    push_dep(
        deps,
        make_dep(
            "pkg-config",
            "Package configuration tool",
            p.which_pkg_config,
            "apt:pkg-config",
            "Rust native compilation",
        ),
    );
    assert(dep_views(deps@) =~= dep_views(old(deps)@) + build_tool_deps(*p));
}

pub open spec fn all_installed(d: Seq<DepView>) -> bool {
    forall|i: int| 0 <= i < d.len() ==> (#[trigger] d[i]).installed
}

pub open spec fn missing_count(d: Seq<DepView>) -> nat
    decreases d.len(),
{
    if d.len() == 0 {
        0
    } else {
        missing_count(d.drop_last()) + if d.last().installed {
            0nat
        } else {
            1nat
        }
    }
}

proof fn lemma_missing_count(d: Seq<DepView>)
    ensures
        missing_count(d) <= d.len(),
        missing_count(d) == 0 <==> all_installed(d),
    decreases d.len(),
{
    if d.len() > 0 {
        lemma_missing_count(d.drop_last());
        if all_installed(d.drop_last()) && d.last().installed {
            assert forall|i: int| 0 <= i < d.len() implies (#[trigger] d[i]).installed by {
                if i < d.len() - 1 {
                    assert(d.drop_last()[i] == d[i]);
                }
            }
        }
        if all_installed(d) {
            assert forall|i: int| 0 <= i < d.drop_last().len() implies (
            #[trigger] d.drop_last()[i]).installed by {
                assert(d.drop_last()[i] == d[i]);
            }
            assert(d[d.len() - 1].installed);
        }
    }
}

fn count_missing(deps: &Vec<Dependency>) -> (r: usize)
    ensures
        r == missing_count(dep_views(deps@)),
        (r == 0) == all_installed(dep_views(deps@)),
{
    let mut n: usize = 0;
    let mut i: usize = 0;
    while i < deps.len()
        invariant
            i <= deps.len(),
            n == missing_count(dep_views(deps@.subrange(0, i as int))),
            n <= i,
        decreases deps.len() - i,
    {
        let ghost pre = deps@.subrange(0, i as int);
        assert(dep_views(deps@.subrange(0, i + 1)).drop_last() =~= dep_views(pre));
        assert(dep_views(deps@.subrange(0, i + 1)).last() == deps@[i as int]@);
        if !deps[i].installed {
            n = n + 1;
        }
        i = i + 1;
    }
    assert(deps@.subrange(0, deps@.len() as int) =~= deps@);
    proof {
        lemma_missing_count(dep_views(deps@));
    }
    n
}

/// The summary line for missing dependencies.
pub open spec fn missing_summary(n: nat) -> Seq<char> {
    decimal(n) + " missing dependency(ies). Run `zonky setup --install` to install them."@
}

fn missing_summary_exec(n: usize) -> (r: String)
    ensures
        r@ == missing_summary(n as nat),
{
    let mut v = decimal_exec(n as u64);
    extend_str(&mut v, " missing dependency(ies). Run `zonky setup --install` to install them.");
    string_of(&v)
}

/// The `usermod` commands that add the user to the missing groups.
pub open spec fn usermod_cmd(p: SetupProbe) -> Seq<char> {
    let user = match opt_str(p.user) {
        Some(u) => u,
        None => "$(whoami)"@,
    };
    let r = in_group(p, "render"@);
    let v = in_group(p, "video"@);
    let cmds = (if !r {
        seq!["sudo usermod -aG render "@ + user]
    } else {
        seq![]
    }) + (if !v {
        seq!["sudo usermod -aG video "@ + user]
    } else {
        seq![]
    });
    join(cmds, " && "@)
}

pub open spec fn amd_deps(p: SetupProbe) -> Seq<DepView> {
    let rocm = p.opt_rocm || p.which_rocminfo;
    let hip = p.hip_opt_lib || p.hip_usr_lib || p.which_hipcc;
    let hipblas = p.hipblas_lib || p.pkg_hipblas;
    let groups = in_group(p, "render"@) && in_group(p, "video"@);
    seq![
        dep_of(
            "amdgpu kernel driver"@,
            "Kernel driver for AMD GPU compute (/dev/kfd)"@,
            p.dev_kfd,
            "apt:linux-modules-extra-$(uname -r)"@,
            "ROCm compute"@,
        ),
        dep_of("rocm-dev"@, "AMD ROCm development runtime"@, rocm, "apt:rocm-dev"@, "ROCm compute"@),
        dep_of(
            "rocminfo"@,
            "ROCm system info utility"@,
            p.which_rocminfo,
            "apt:rocminfo"@,
            "GPU diagnostics"@,
        ),
        dep_of(
            "hip-runtime-amd"@,
            "AMD HIP runtime for GPU compute kernels"@,
            hip,
            "apt:hip-runtime-amd"@,
            "Candle ROCm backend"@,
        ),
        dep_of(
            "hipblas-dev"@,
            "HIP BLAS library for matrix operations"@,
            hipblas,
            "apt:hipblas-dev"@,
            "Candle ROCm backend"@,
        ),
        dep_of(
            "GPU group membership"@,
            "User must be in 'render' and 'video' groups"@,
            groups,
            usermod_cmd(p),
            "GPU access permissions"@,
        ),
    ] + build_tool_deps(p)
}

/// The status of an AMD GPU.
pub open spec fn amd_status(gpu_name: Seq<char>, p: SetupProbe) -> StatusView {
    let deps = amd_deps(p);
    let all_good = all_installed(deps);
    let reboot = reboot_needed(p);
    StatusView {
        gpu_vendor: "AMD"@,
        gpu_name,
        compute_ready: all_good && !reboot,
        needs_reboot: reboot,
        deps,
        summary: if all_good && !reboot {
            "All AMD ROCm dependencies are installed. GPU compute is ready."@
        } else if reboot {
            "Group membership changed — reboot required to activate GPU access."@
        } else {
            missing_summary(missing_count(deps))
        },
    }
}

pub open spec fn nvidia_deps(p: SetupProbe) -> Seq<DepView> {
    let driver = p.dev_nvidia0 || p.which_nvidia_smi;
    let cuda = p.which_nvcc || p.usr_local_cuda;
    let cublas = p.cublas_cuda_lib || p.cublas_usr_lib || p.pkg_cublas;
    seq![
        dep_of(
            "nvidia-driver"@,
            "NVIDIA GPU driver"@,
            driver,
            "apt:nvidia-driver-580"@,
            "CUDA compute"@,
        ),
        dep_of(
            "cuda-toolkit"@,
            "NVIDIA CUDA toolkit"@,
            cuda,
            "apt:nvidia-cuda-toolkit"@,
            "Candle CUDA backend"@,
        ),
        dep_of(
            "libcublas-dev"@,
            "CUDA BLAS library for matrix operations"@,
            cublas,
            "apt:libcublas-dev"@,
            "Candle CUDA backend"@,
        ),
    ] + build_tool_deps(p)
}

/// The status of an NVIDIA GPU.
pub open spec fn nvidia_status(gpu_name: Seq<char>, p: SetupProbe) -> StatusView {
    let deps = nvidia_deps(p);
    let all_good = all_installed(deps);
    StatusView {
        gpu_vendor: "NVIDIA"@,
        gpu_name,
        compute_ready: all_good,
        needs_reboot: false,
        deps,
        summary: if all_good {
            "All NVIDIA CUDA dependencies are installed. GPU compute is ready."@
        } else {
            missing_summary(missing_count(deps))
        },
    }
}

/// The status of Apple Metal, which needs nothing extra.
pub open spec fn metal_status() -> StatusView {
    StatusView {
        gpu_vendor: "Apple"@,
        gpu_name: "Apple Silicon (Metal)"@,
        compute_ready: true,
        needs_reboot: false,
        deps: seq![],
        summary: "Metal is natively supported. No additional dependencies needed."@,
    }
}

/// The status when no GPU was found.
pub open spec fn no_gpu_status() -> StatusView {
    StatusView {
        gpu_vendor: "None"@,
        gpu_name: "No GPU detected"@,
        compute_ready: false,
        needs_reboot: false,
        deps: seq![],
        summary: "No GPU hardware found. CPU inference will be used."@,
    }
}

fn make_usermod_cmd(p: &SetupProbe) -> (r: String)
    ensures
        r@ == usermod_cmd(*p),
{
    let user: Vec<char> = match &p.user {
        Some(u) => chars_of(u.as_str()),
        None => chars_of("$(whoami)"),
    };
    let in_render = user_in_group(p, "render");
    let in_video = user_in_group(p, "video");
    let mut cmds: Vec<Vec<char>> = Vec::new();
    if !in_render {
        let mut c = chars_of("sudo usermod -aG render ");
        extend_chars(&mut c, &user);
        let ghost before = cmds@;
        cmds.push(c);
        proof {
            lemma_pieces_push(before, cmds@, c);
        }
    }
    if !in_video {
        let mut c = chars_of("sudo usermod -aG video ");
        extend_chars(&mut c, &user);
        let ghost before = cmds@;
        cmds.push(c);
        proof {
            lemma_pieces_push(before, cmds@, c);
        }
    }
    let sep = chars_of(" && ");
    let j = join_exec(&cmds, &sep);
    let ghost user_v = match opt_str(p.user) {
        Some(u) => u,
        None => "$(whoami)"@,
    };
    assert(pieces(&cmds) =~= (if !in_render {
        seq!["sudo usermod -aG render "@ + user_v]
    } else {
        seq![]
    }) + (if !in_video {
        seq!["sudo usermod -aG video "@ + user_v]
    } else {
        seq![]
    }));
    string_of(&j)
}

/// `check_amd_setup`: the dependencies of ROCm compute on an AMD GPU.
pub fn check_amd_setup(gpu_name: &str, p: &SetupProbe) -> (r: SetupStatus)
    ensures
        r@ == amd_status(gpu_name@, *p),
{
    let distro = detect_distro(&p.os_release);
    let mut deps: Vec<Dependency> = Vec::new();
    push_dep(
        &mut deps,
        make_dep(
            "amdgpu kernel driver",
            "Kernel driver for AMD GPU compute (/dev/kfd)",
            p.dev_kfd,
            "apt:linux-modules-extra-$(uname -r)",
            "ROCm compute",
        ),
    );
    let rocm_installed = p.opt_rocm || p.which_rocminfo;
    let rocm_cmd = rocm_install_cmd(distro.as_str());
    push_dep(
        &mut deps,
        make_dep(
            "rocm-dev",
            "AMD ROCm development runtime",
            rocm_installed,
            rocm_cmd.as_str(),
            "ROCm compute",
        ),
    );
    push_dep(
        &mut deps,
        make_dep(
            "rocminfo",
            "ROCm system info utility",
            p.which_rocminfo,
            "apt:rocminfo",
            "GPU diagnostics",
        ),
    );
    let has_hip = p.hip_opt_lib || p.hip_usr_lib || p.which_hipcc;
    push_dep(
        &mut deps,
        make_dep(
            "hip-runtime-amd",
            "AMD HIP runtime for GPU compute kernels",
            has_hip,
            "apt:hip-runtime-amd",
            "Candle ROCm backend",
        ),
    );
    let has_hipblas = p.hipblas_lib || p.pkg_hipblas;
    push_dep(
        &mut deps,
        make_dep(
            "hipblas-dev",
            "HIP BLAS library for matrix operations",
            has_hipblas,
            "apt:hipblas-dev",
            "Candle ROCm backend",
        ),
    );
    let in_render = user_in_group(p, "render");
    let in_video = user_in_group(p, "video");
    let groups_cmd = make_usermod_cmd(p);
    push_dep(
        &mut deps,
        make_dep(
            "GPU group membership",
            "User must be in 'render' and 'video' groups",
            in_render && in_video,
            groups_cmd.as_str(),
            "GPU access permissions",
        ),
    );
    check_build_tools(&mut deps, p);
    assert(dep_views(deps@) =~= amd_deps(*p));
    let missing = count_missing(&deps);
    let all_good = missing == 0;
    let reboot = needs_reboot_for_groups(p);
    let summary = if all_good && !reboot {
        owned("All AMD ROCm dependencies are installed. GPU compute is ready.")
    } else if reboot {
        owned("Group membership changed — reboot required to activate GPU access.")
    } else {
        missing_summary_exec(missing)
    };
    SetupStatus {
        gpu_vendor: owned("AMD"),
        gpu_name: owned(gpu_name),
        compute_ready: all_good && !reboot,
        needs_reboot: reboot,
        deps,
        summary,
    }
}

/// `check_nvidia_setup`: the dependencies of CUDA compute on an NVIDIA GPU.
pub fn check_nvidia_setup(gpu_name: &str, p: &SetupProbe) -> (r: SetupStatus)
    ensures
        r@ == nvidia_status(gpu_name@, *p),
{
    let mut deps: Vec<Dependency> = Vec::new();
    let has_driver = p.dev_nvidia0 || p.which_nvidia_smi;
    push_dep(
        &mut deps,
        make_dep(
            "nvidia-driver",
            "NVIDIA GPU driver",
            has_driver,
            "apt:nvidia-driver-580",
            "CUDA compute",
        ),
    );
    let has_cuda = p.which_nvcc || p.usr_local_cuda;
    push_dep(
        &mut deps,
        make_dep(
            "cuda-toolkit",
            "NVIDIA CUDA toolkit",
            has_cuda,
            "apt:nvidia-cuda-toolkit",
            "Candle CUDA backend",
        ),
    );
    let has_cublas = p.cublas_cuda_lib || p.cublas_usr_lib || p.pkg_cublas;
    push_dep(
        &mut deps,
        make_dep(
            "libcublas-dev",
            "CUDA BLAS library for matrix operations",
            has_cublas,
            "apt:libcublas-dev",
            "Candle CUDA backend",
        ),
    );
    check_build_tools(&mut deps, p);
    assert(dep_views(deps@) =~= nvidia_deps(*p));
    let missing = count_missing(&deps);
    let all_good = missing == 0;
    let summary = if all_good {
        owned("All NVIDIA CUDA dependencies are installed. GPU compute is ready.")
    } else {
        missing_summary_exec(missing)
    };
    SetupStatus {
        gpu_vendor: owned("NVIDIA"),
        gpu_name: owned(gpu_name),
        compute_ready: all_good,
        needs_reboot: false,
        deps,
        summary,
    }
}

/// `check_metal_setup`: Metal needs no additional dependency.
pub fn check_metal_setup() -> (r: SetupStatus)
    ensures
        r@ == metal_status(),
{
    let r = SetupStatus {
        gpu_vendor: owned("Apple"),
        gpu_name: owned("Apple Silicon (Metal)"),
        compute_ready: true,
        needs_reboot: false,
        deps: Vec::new(),
        summary: owned("Metal is natively supported. No additional dependencies needed."),
    };
    assert(r@.deps =~= Seq::<DepView>::empty());
    r
}

/// The status for the first GPU of a device list.
pub open spec fn setup_for(devices: Seq<DeviceView>, p: SetupProbe) -> StatusView {
    match first_gpu(devices) {
        DeviceView::Rocm { name, .. } => amd_status(name, p),
        DeviceView::Cuda { name, .. } => nvidia_status(name, p),
        DeviceView::Metal { .. } => metal_status(),
        DeviceView::Cpu => no_gpu_status(),
    }
}

/// `check_setup`: detect the GPU and check what its compute stack needs.
pub fn check_setup(scan: &HostScan, p: &SetupProbe) -> (r: SetupStatus)
    ensures
        r@ == setup_for(host_devices(*scan), *p),
{
    let devices = detect_devices(scan);
    let gpu = first_gpu_of(&devices);
    match &gpu {
        GpuDevice::Rocm { name, .. } => check_amd_setup(name.as_str(), p),
        GpuDevice::Cuda { name, .. } => check_nvidia_setup(name.as_str(), p),
        GpuDevice::Metal { .. } => check_metal_setup(),
        GpuDevice::Cpu => {
            let r = SetupStatus {
                gpu_vendor: owned("None"),
                gpu_name: owned("No GPU detected"),
                compute_ready: false,
                needs_reboot: false,
                deps: Vec::new(),
                summary: owned("No GPU hardware found. CPU inference will be used."),
            };
            assert(r@.deps =~= Seq::<DepView>::empty());
            r
        },
    }
}

// ---------------------------------------------------------------------------
// Installation
// ---------------------------------------------------------------------------

/// Install commands of the missing dependencies, in order.
pub open spec fn missing_cmds(d: Seq<DepView>) -> Seq<Seq<char>>
    decreases d.len(),
{
    if d.len() == 0 {
        seq![]
    } else {
        let prev = missing_cmds(d.drop_last());
        match d.last().install_cmd {
            Some(c) => if !d.last().installed {
                prev.push(c)
            } else {
                prev
            },
            None => prev,
        }
    }
}

/// Packages of the `apt:` commands.
pub open spec fn apt_packages(cmds: Seq<Seq<char>>) -> Seq<Seq<char>>
    decreases cmds.len(),
{
    if cmds.len() == 0 {
        seq![]
    } else {
        match strip_prefix(cmds.last(), "apt:"@) {
            Some(pkg) => apt_packages(cmds.drop_last()).push(pkg),
            None => apt_packages(cmds.drop_last()),
        }
    }
}

/// Commands that are not `apt:` packages.
pub open spec fn other_commands(cmds: Seq<Seq<char>>) -> Seq<Seq<char>>
    decreases cmds.len(),
{
    if cmds.len() == 0 {
        seq![]
    } else {
        match strip_prefix(cmds.last(), "apt:"@) {
            Some(_) => other_commands(cmds.drop_last()),
            None => other_commands(cmds.drop_last()).push(cmds.last()),
        }
    }
}

/// The one shell command that installs everything missing: one
/// `sudo apt install -y` for all apt packages, then the other commands,
/// joined by `&&`; `None` when nothing is missing.
pub open spec fn install_command_of(s: StatusView) -> Option<Seq<char>> {
    let cmds = missing_cmds(s.deps);
    if cmds.len() == 0 {
        None
    } else {
        let apt = apt_packages(cmds);
        let lines = (if apt.len() > 0 {
            seq!["sudo apt install -y "@ + join(apt, " "@)]
        } else {
            seq![]
        }) + other_commands(cmds);
        Some(join(lines, " && "@))
    }
}

/// `install_command`: a single command installing all missing dependencies.
pub fn install_command(status: &SetupStatus) -> (r: Option<String>)
    ensures
        opt_str(r) == install_command_of(status@),
{
    let mut cmds: Vec<Vec<char>> = Vec::new();
    let mut i: usize = 0;
    while i < status.deps.len()
        invariant
            i <= status.deps.len(),
            pieces(&cmds) == missing_cmds(dep_views(status.deps@.subrange(0, i as int))),
        decreases status.deps.len() - i,
    {
        let ghost pre = status.deps@.subrange(0, i as int);
        assert(dep_views(status.deps@.subrange(0, i + 1)).drop_last() =~= dep_views(pre));
        assert(dep_views(status.deps@.subrange(0, i + 1)).last() == status.deps@[i as int]@);
        let d = &status.deps[i];
        if !d.installed {
            match &d.install_cmd {
                Some(c) => {
                    let cv = chars_of(c.as_str());
                    let ghost before = cmds@;
                    cmds.push(cv);
                    proof {
                        lemma_pieces_push(before, cmds@, cv);
                    }
                },
                None => {},
            }
        }
        i = i + 1;
    }
    assert(status.deps@.subrange(0, status.deps@.len() as int) =~= status.deps@);
    if cmds.len() == 0 {
        return None;
    }
    let prefix = chars_of("apt:");
    let mut apt: Vec<Vec<char>> = Vec::new();
    let mut other: Vec<Vec<char>> = Vec::new();
    let mut k: usize = 0;
    while k < cmds.len()
        invariant
            k <= cmds.len(),
            prefix@ == "apt:"@,
            pieces(&apt) == apt_packages(pieces(&cmds).subrange(0, k as int)),
            pieces(&other) == other_commands(pieces(&cmds).subrange(0, k as int)),
        decreases cmds.len() - k,
    {
        let ghost pre = pieces(&cmds).subrange(0, k as int);
        assert(pieces(&cmds).subrange(0, k + 1).drop_last() =~= pre);
        assert(pieces(&cmds).subrange(0, k + 1).last() == cmds@[k as int]@);
        match strip_prefix_exec(&cmds[k], &prefix) {
            Some(pkg) => {
                let ghost before = apt@;
                apt.push(pkg);
                proof {
                    lemma_pieces_push(before, apt@, pkg);
                }
            },
            None => {
                let c = cmds[k].clone();
                let ghost before = other@;
                other.push(c);
                proof {
                    lemma_pieces_push(before, other@, c);
                }
            },
        }
        k = k + 1;
    }
    assert(pieces(&cmds).subrange(0, cmds@.len() as int) =~= pieces(&cmds));
    let mut commands: Vec<Vec<char>> = Vec::new();
    if apt.len() > 0 {
        let mut line = chars_of("sudo apt install -y ");
        let space = chars_of(" ");
        let j = join_exec(&apt, &space);
        extend_chars(&mut line, &j);
        let ghost before = commands@;
        commands.push(line);
        proof {
            lemma_pieces_push(before, commands@, line);
        }
    }
    let ghost head = pieces(&commands);
    let mut m: usize = 0;
    while m < other.len()
        invariant
            m <= other.len(),
            pieces(&commands) == head + pieces(&other).subrange(0, m as int),
        decreases other.len() - m,
    {
        let c = other[m].clone();
        let ghost before = commands@;
        commands.push(c);
        proof {
            lemma_pieces_push(before, commands@, c);
            assert(pieces(&other).subrange(0, m + 1) =~= pieces(&other).subrange(0, m as int).push(
                c@,
            ));
        }
        m = m + 1;
    }
    assert(pieces(&other).subrange(0, other@.len() as int) =~= pieces(&other));
    let sep = chars_of(" && ");
    let all = join_exec(&commands, &sep);
    Some(string_of(&all))
}

/// The message returned when there is nothing to install.
pub fn nothing_to_install() -> (r: String)
    ensures
        r@ == "Nothing to install — all dependencies satisfied."@,
{
    owned("Nothing to install — all dependencies satisfied.")
}

/// What `run_install` reports for a finished install command: its output on
/// success, else the exit code (`-1` when killed by a signal) and stderr.
pub open spec fn install_outcome_of(
    success: bool,
    code: Option<i32>,
    stdout: Seq<char>,
    stderr: Seq<char>,
) -> Result<Seq<char>, Seq<char>> {
    if success {
        Ok(stdout + "\n"@ + stderr)
    } else {
        let c: int = match code {
            Some(c) => c as int,
            None => -1,
        };
        Err("Install failed (exit code "@ + signed_decimal(c) + "):\n"@ + stderr)
    }
}

pub open spec fn result_str(r: Result<String, String>) -> Result<Seq<char>, Seq<char>> {
    match r {
        Ok(s) => Ok(s@),
        Err(s) => Err(s@),
    }
}

pub fn install_outcome(success: bool, code: Option<i32>, stdout: &str, stderr: &str) -> (r: Result<
    String,
    String,
>)
    ensures
        result_str(r) == install_outcome_of(success, code, stdout@, stderr@),
{
    if success {
        let mut v = chars_of(stdout);
        extend_str(&mut v, "\n");
        extend_str(&mut v, stderr);
        Ok(string_of(&v))
    } else {
        let c: i64 = match code {
            Some(c) => c as i64,
            None => -1,
        };
        let mut v = chars_of("Install failed (exit code ");
        let d = signed_decimal_exec(c);
        extend_chars(&mut v, &d);
        extend_str(&mut v, "):\n");
        extend_str(&mut v, stderr);
        Err(string_of(&v))
    }
}


// ---------------------------------------------------------------------------
// Laws of the setup check
// ---------------------------------------------------------------------------

/// A dependency is missing and says how to install it.
pub open spec fn installable_missing(d: Seq<DepView>) -> bool {
    exists|i: int| 0 <= i < d.len() && !(#[trigger] d[i]).installed && d[i].install_cmd is Some
}

proof fn lemma_missing_cmds_empty(d: Seq<DepView>)
    ensures
        missing_cmds(d).len() == 0 <==> !installable_missing(d),
    decreases d.len(),
{
    if d.len() > 0 {
        let p = d.drop_last();
        lemma_missing_cmds_empty(p);
        if installable_missing(p) {
            let i = choose|i: int| 0 <= i < p.len() && !(#[trigger] p[i]).installed && p[i].install_cmd is Some;
            assert(d[i] == p[i]);
        }
        if installable_missing(d) {
            let i = choose|i: int| 0 <= i < d.len() && !(#[trigger] d[i]).installed && d[i].install_cmd is Some;
            if i < d.len() - 1 {
                assert(d[i] == p[i]);
            }
        }
    }
}

/// `install_command` offers a command exactly when some missing dependency
/// has an install command; so a status with everything installed needs no
/// command.
pub proof fn lemma_install_command_when_missing(s: StatusView)
    ensures
        install_command_of(s) is Some <==> installable_missing(s.deps),
        all_installed(s.deps) ==> install_command_of(s) is None,
{
    lemma_missing_cmds_empty(s.deps);
}

/// What `check_setup` reports: compute is ready only when every dependency
/// is installed and no reboot is pending; for an AMD or NVIDIA GPU it is
/// ready exactly then; and a ready machine has nothing to install.
pub proof fn lemma_ready_iff_installed(devices: Seq<DeviceView>, p: SetupProbe)
    ensures
        setup_for(devices, p).compute_ready ==> all_installed(setup_for(devices, p).deps) && !setup_for(devices, p).needs_reboot,
        (first_gpu(devices) is Rocm || first_gpu(devices) is Cuda) ==> (setup_for(devices, p).compute_ready <==> all_installed(setup_for(devices, p).deps) && !setup_for(devices, p).needs_reboot),
        setup_for(devices, p).compute_ready ==> install_command_of(setup_for(devices, p)) is None,
{
    lemma_install_command_when_missing(setup_for(devices, p));
}

/// Each of the groups `render` and `video` on its own: when `/etc/group`
/// lists the user in it but the session does not carry it yet, a reboot is
/// pending, and the AMD status is not ready and says a reboot is required.
/// A reboot is pending only for such a group.
pub proof fn lemma_pending_group_needs_reboot(p: SetupProbe, gpu_name: Seq<char>, g: Seq<char>)
    requires
        g == "render"@ || g == "video"@,
    ensures
        in_etc_group(p, g) && !in_session_group(p, g) ==> reboot_needed(p) && amd_status(
            gpu_name,
            p,
        ).needs_reboot && !amd_status(gpu_name, p).compute_ready && amd_status(gpu_name, p).summary
            == "Group membership changed — reboot required to activate GPU access."@,
        reboot_needed(p) ==> exists|h: Seq<char>|
            (h == "render"@ || h == "video"@) && in_etc_group(p, h) && !in_session_group(p, h),
        !reboot_needed(p) ==> !amd_status(gpu_name, p).needs_reboot,
{
    if reboot_needed(p) {
        if in_etc_group(p, "render"@) && !in_session_group(p, "render"@) {
            assert(("render"@ == "render"@ || "render"@ == "video"@) && in_etc_group(p, "render"@)
                && !in_session_group(p, "render"@));
        } else {
            assert(("video"@ == "render"@ || "video"@ == "video"@) && in_etc_group(p, "video"@)
                && !in_session_group(p, "video"@));
        }
    }
}

} // verus!
