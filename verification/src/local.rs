//! Choices made before talking to a model: the model's display name, the
//! device and context parameters of a local model, and service addresses.
use vstd::prelude::*;
use vstd::string::StringExecFns;
use crate::errors::Error;
use crate::text::{chars_of, find_from, find_in, occurs_at, same_text, string_from_range};

verus! {

/// The index of the last `c` in `s`, if any.
pub open spec fn last_index_of(s: Seq<char>, c: char) -> Option<int>
    decreases s.len(),
{
    if s.len() == 0 {
        None
    } else if s.last() == c {
        Some(s.len() - 1)
    } else {
        last_index_of(s.drop_last(), c)
    }
}

/// The last component of the path `p` other than empty and `.` components.
pub open spec fn last_component(p: Seq<char>) -> Option<Seq<char>>
    decreases p.len(),
{
    match last_index_of(p, '/') {
        None => if p.len() > 0 && p != "."@ {
            Some(p)
        } else {
            None
        },
        Some(k) => {
            let seg = p.skip(k + 1);
            if seg.len() > 0 && seg != "."@ {
                Some(seg)
            } else if 0 <= k < p.len() {
                last_component(p.take(k))
            } else {
                None
            }
        },
    }
}

/// The final component of the path `p` as `Path::file_name` gives it (paths
/// with `/` separators): none when the path ends in `..` or has no component.
pub open spec fn file_name_of(p: Seq<char>) -> Option<Seq<char>> {
    match last_component(p) {
        Some(c) => if c == ".."@ {
            None
        } else {
            Some(c)
        },
        None => None,
    }
}

/// The stem of a file name as `Path::file_stem` gives it: the name before its
/// last `.`, or the whole name when it has no `.` after its first character.
pub open spec fn stem_of(name: Seq<char>) -> Seq<char> {
    match last_index_of(name, '.') {
        Some(i) => if i > 0 {
            name.take(i)
        } else {
            name
        },
        None => name,
    }
}

/// The display name of the model file at `model_path`.
pub open spec fn model_alias(model_path: Seq<char>) -> Seq<char> {
    match file_name_of(model_path) {
        Some(name) => stem_of(name),
        None => "local-model"@,
    }
}

/// The index of the last `c` in `v[..hi]`.
fn last_index_in(v: &Vec<char>, hi: usize, c: char) -> (r: Option<usize>)
    requires
        hi <= v@.len(),
    ensures
        match last_index_of(v@.take(hi as int), c) {
            None => r is None,
            Some(k) => r == Some(k as usize) && 0 <= k < hi,
        },
{
    let mut j = hi;
    loop
        invariant
            j <= hi <= v@.len(),
            last_index_of(v@.take(hi as int), c) == last_index_of(v@.take(j as int), c),
        decreases j,
    {
        if j == 0 {
            assert(v@.take(0) =~= Seq::<char>::empty());
            return None;
        }
        if v[j - 1] == c {
            return Some(j - 1);
        }
        assert(v@.take(j as int).drop_last() =~= v@.take(j - 1));
        j = j - 1;
    }
}

/// The display name of a local model: the stem of its file name, or
/// `local-model` when the path names no file.
pub fn default_model_alias(model_path: &str) -> (r: String)
    ensures
        r@ == model_alias(model_path@),
{
    let v = chars_of(model_path);
    let mut hi = v.len();
    assert(v@.take(hi as int) =~= v@);
    let mut found: Option<(usize, usize)> = None;
    loop
        invariant
            hi <= v@.len(),
            v@ == model_path@,
            last_component(model_path@) == last_component(v@.take(hi as int)),
        ensures
            match last_component(model_path@) {
                None => found is None,
                Some(seg) => found matches Some(b) && b.0 <= b.1 <= v@.len() && v@.subrange(
                    b.0 as int,
                    b.1 as int,
                ) == seg,
            },
        decreases hi,
    {
        let ghost p = v@.take(hi as int);
        match last_index_in(&v, hi, '/') {
            None => {
                let dot = hi == 1 && v[0] == '.';
                proof {
                    reveal_strlit(".");
                    if hi == 1 && p[0] == '.' {
                        assert(p =~= "."@);
                    }
                }
                if hi > 0 && !dot {
                    assert(v@.subrange(0, hi as int) =~= p);
                    found = Some((0, hi));
                    break;
                } else {
                    found = None;
                    break;
                }
            },
            Some(k) => {
                let seg_lo = k + 1;
                let dot = hi - seg_lo == 1 && v[seg_lo] == '.';
                assert(p.skip(k + 1) =~= v@.subrange(seg_lo as int, hi as int));
                proof {
                    reveal_strlit(".");
                    if hi - seg_lo == 1 && p.skip(k + 1)[0] == '.' {
                        assert(p.skip(k + 1) =~= "."@);
                    }
                }
                if hi > seg_lo && !dot {
                    found = Some((seg_lo, hi));
                    break;
                }
                assert(p.take(k as int) =~= v@.take(k as int));
                hi = k;
            },
        }
    }
    match found {
        None => "local-model".to_owned(),
        Some((lo, hi)) => {
            let name = string_from_range(&v, lo, hi);
            if same_text(name.as_str(), "..") {
                return "local-model".to_owned();
            }
            let nv = chars_of(name.as_str());
            assert(nv@.take(nv@.len() as int) =~= nv@);
            match last_index_in(&nv, nv.len(), '.') {
                Some(i) => {
                    if i > 0 {
                        let r = string_from_range(&nv, 0, i);
                        assert(nv@.subrange(0, i as int) =~= nv@.take(i as int));
                        r
                    } else {
                        name
                    }
                },
                None => name,
            }
        },
    }
}

/// `c` with an ASCII upper-case letter made lower-case.
pub open spec fn ascii_lower(c: char) -> char {
    if 0x41 <= (c as u32) <= 0x5A {
        ((c as u32) + 32) as char
    } else {
        c
    }
}

/// `s` with its ASCII letters made lower-case, as `str::to_ascii_lowercase` gives it.
pub open spec fn ascii_lowercase(s: Seq<char>) -> Seq<char> {
    s.map_values(|c: char| ascii_lower(c))
}

/// `a` and `b` are equal up to ASCII case, as `str::eq_ignore_ascii_case` decides.
pub open spec fn eq_ignore_ascii_case(a: Seq<char>, b: Seq<char>) -> bool {
    ascii_lowercase(a) == ascii_lowercase(b)
}

/// `pat` stands somewhere in `s`.
pub open spec fn contains(s: Seq<char>, pat: Seq<char>) -> bool {
    find_from(s, pat, 0) is Some
}

fn lower_char(c: char) -> (r: char)
    ensures
        r == ascii_lower(c),
{
    let u = c as u32;
    if 0x41 <= u && u <= 0x5A {
        ((u + 32) as u8) as char
    } else {
        c
    }
}

/// The ASCII lower-case form of `v`.
fn lowercase_chars(v: &Vec<char>) -> (r: Vec<char>)
    ensures
        r@ == ascii_lowercase(v@),
{
    let mut r: Vec<char> = Vec::new();
    for i in 0..v.len()
        invariant
            r@ == ascii_lowercase(v@.take(i as int)),
    {
        r.push(lower_char(v[i]));
        assert(ascii_lowercase(v@.take(i + 1)) =~= ascii_lowercase(v@.take(i as int)).push(
            ascii_lower(v@[i as int]),
        ));
    }
    assert(v@.take(v@.len() as int) =~= v@);
    r
}

/// Whether `a` and `b` are equal up to ASCII case.
pub fn same_ignoring_ascii_case(a: &str, b: &str) -> (r: bool)
    ensures
        r == eq_ignore_ascii_case(a@, b@),
{
    let x = lowercase_chars(&chars_of(a));
    let y = lowercase_chars(&chars_of(b));
    if x.len() != y.len() {
        return false;
    }
    let mut i: usize = 0;
    while i < x.len()
        invariant
            x@ == ascii_lowercase(a@),
            y@ == ascii_lowercase(b@),
            x@.len() == y@.len(),
            i <= x@.len(),
            forall|j: int| 0 <= j < i ==> x@[j] == y@[j],
        decreases x@.len() - i,
    {
        if x[i] != y[i] {
            assert(x@[i as int] != y@[i as int]);
            return false;
        }
        i = i + 1;
    }
    assert(x@ =~= y@);
    true
}

/// What llama.cpp reports a device to be.
#[derive(Debug, Clone, Copy, PartialEq, Eq, Structural)]
pub enum DeviceKind {
    Cpu,
    Accelerator,
    Gpu,
    IntegratedGpu,
    Unknown,
}

/// A compute device llama.cpp found: its index and its backend's name.
#[derive(Debug, Clone, PartialEq, Eq)]
pub struct BackendDevice {
    pub index: usize,
    pub backend: String,
    pub kind: DeviceKind,
}

/// Where a local model's layers go.
#[derive(Debug, Clone, Copy, PartialEq, Eq, Structural)]
pub struct DevicePlan {
    pub use_gpu: bool,
    /// How many layers to offload: all of them, or none.
    pub gpu_layers: u32,
    /// The index of the device that runs the model, when a GPU is used.
    pub main_device: Option<usize>,
}

/// The detail of the error when a GPU is wanted and none is found.
pub const NO_GPU_DETAIL: &'static str = "GPU backend selected but llama.cpp found no GPU devices. Rebuild with GPU features (AMD ROCm: llama-cpp-2 feature 'rocm').";

/// `d` is a GPU, discrete or integrated.
pub open spec fn is_gpu(d: BackendDevice) -> bool {
    d.kind is Gpu || d.kind is IntegratedGpu
}

/// A GPU with backend name `backend` suits the wanted backend `wanted`:
/// HIP, ROCm or Vulkan for AMD; CUDA or Vulkan for NVIDIA; any otherwise.
pub open spec fn suits(wanted: Seq<char>, backend: Seq<char>) -> bool {
    let b = ascii_lowercase(backend);
    if eq_ignore_ascii_case(wanted, "AMD"@) {
        contains(b, "hip"@) || contains(b, "rocm"@) || contains(b, "vulkan"@)
    } else if eq_ignore_ascii_case(wanted, "NVIDIA"@) {
        contains(b, "cuda"@) || contains(b, "vulkan"@)
    } else {
        true
    }
}

/// The position in `devs`, at or after `from`, of the first GPU (that suits
/// `wanted`, when `suiting`).
pub open spec fn first_gpu(devs: Seq<BackendDevice>, wanted: Seq<char>, suiting: bool, from: int) -> Option<int>
    decreases devs.len() - from,
{
    if from < 0 || from >= devs.len() {
        None
    } else if is_gpu(devs[from]) && (!suiting || suits(wanted, devs[from].backend@)) {
        Some(from)
    } else {
        first_gpu(devs, wanted, suiting, from + 1)
    }
}

/// The device plan for the wanted backend `wanted` with the devices `devs`.
pub open spec fn device_plan(wanted: Seq<char>, devs: Seq<BackendDevice>) -> Option<DevicePlan> {
    if eq_ignore_ascii_case(wanted, "CPU"@) {
        Some(DevicePlan { use_gpu: false, gpu_layers: 0, main_device: None })
    } else {
        match first_gpu(devs, wanted, true, 0) {
            Some(i) => Some(DevicePlan { use_gpu: true, gpu_layers: u32::MAX, main_device: Some(devs[i].index) }),
            None => match first_gpu(devs, wanted, false, 0) {
                Some(i) => Some(DevicePlan { use_gpu: true, gpu_layers: u32::MAX, main_device: Some(devs[i].index) }),
                None => None,
            },
        }
    }
}

/// Whether `s` contains the characters of `lit`.
fn contains_text(s: &Vec<char>, lit: &str) -> (b: bool)
    ensures
        b == contains(s@, lit@),
{
    let pat = chars_of(lit);
    if pat.len() == 0 {
        assert(occurs_at(s@, pat@, 0)) by {
            assert(s@.subrange(0, 0) =~= pat@);
        }
        assert(find_from(s@, pat@, 0) == Some(0int));
        return true;
    }
    find_in(s, &pat, 0).is_some()
}

/// Whether a GPU with backend name `backend` suits the wanted backend.
fn suits_backend(wanted: &str, backend: &String) -> (b: bool)
    ensures
        b == suits(wanted@, backend@),
{
    let b = lowercase_chars(&chars_of(backend.as_str()));
    if same_ignoring_ascii_case(wanted, "AMD") {
        contains_text(&b, "hip") || contains_text(&b, "rocm") || contains_text(&b, "vulkan")
    } else if same_ignoring_ascii_case(wanted, "NVIDIA") {
        contains_text(&b, "cuda") || contains_text(&b, "vulkan")
    } else {
        true
    }
}

/// The position of the first GPU (that suits `wanted`, when `suiting`).
fn find_gpu(devs: &Vec<BackendDevice>, wanted: &str, suiting: bool) -> (r: Option<usize>)
    ensures
        r is None ==> first_gpu(devs@, wanted@, suiting, 0) is None,
        r matches Some(i) ==> first_gpu(devs@, wanted@, suiting, 0) == Some(i as int) && i < devs@.len(),
{
    let mut i: usize = 0;
    while i < devs.len()
        invariant
            i <= devs@.len(),
            first_gpu(devs@, wanted@, suiting, 0) == first_gpu(devs@, wanted@, suiting, i as int),
        decreases devs@.len() - i,
    {
        let d = &devs[i];
        let gpu = match d.kind {
            DeviceKind::Gpu => true,
            DeviceKind::IntegratedGpu => true,
            _ => false,
        };
        if gpu && (!suiting || suits_backend(wanted, &d.backend)) {
            return Some(i);
        }
        i = i + 1;
    }
    None
}

/// Chooses where a local model runs: on the CPU when `gpu_backend` is `CPU`
/// (in any case), else fully on a GPU, preferring one whose backend suits the
/// wanted vendor; no GPU is an error.
pub fn plan_devices(gpu_backend: &str, devices: &Vec<BackendDevice>) -> (r: Result<DevicePlan, Error>)
    ensures
        match device_plan(gpu_backend@, devices@) {
            Some(p) => r == Ok::<DevicePlan, Error>(p),
            None => r matches Err(Error::LocalModelInferenceError(d)) && d@ == NO_GPU_DETAIL@,
        },
{
    if same_ignoring_ascii_case(gpu_backend, "CPU") {
        return Ok(DevicePlan { use_gpu: false, gpu_layers: 0, main_device: None });
    }
    match find_gpu(devices, gpu_backend, true) {
        Some(i) => {
            let p = DevicePlan { use_gpu: true, gpu_layers: u32::MAX, main_device: Some(devices[i].index) };
            assert(device_plan(gpu_backend@, devices@) == Some(p));
            Ok(p)
        },
        None => match find_gpu(devices, gpu_backend, false) {
            Some(i) => {
                let p = DevicePlan { use_gpu: true, gpu_layers: u32::MAX, main_device: Some(devices[i].index) };
                assert(device_plan(gpu_backend@, devices@) == Some(p));
                Ok(p)
            },
            None => {
                let r = Err(Error::LocalModelInferenceError(NO_GPU_DETAIL.to_owned()));
                assert(device_plan(gpu_backend@, devices@) is None);
                r
            },
        },
    }
}

/// The context sizes of a local model run.
#[derive(Debug, Clone, Copy, PartialEq, Eq, Structural)]
pub struct ContextPlan {
    pub n_ctx: u32,
    pub n_batch: u32,
    pub n_ubatch: u32,
}

pub open spec fn max_u32(a: u32, b: u32) -> u32 {
    if a >= b { a } else { b }
}

pub open spec fn min_u32(a: u32, b: u32) -> u32 {
    if a <= b { a } else { b }
}

/// The context sizes for the requested context and batch sizes: a context of
/// at least 512 tokens, a batch clamped to [32, context] and a micro-batch of
/// half the batch, at least 32 and at most the batch.
pub open spec fn context_plan_of(context_size: u32, batch_size: u32) -> ContextPlan {
    let batch = min_u32(max_u32(batch_size, 32), max_u32(context_size, 32));
    ContextPlan {
        n_ctx: max_u32(context_size, 512),
        n_batch: batch,
        n_ubatch: min_u32(max_u32(batch / 2, 32), batch),
    }
}

/// The context sizes for the requested context and batch sizes.
pub fn context_plan(context_size: u32, batch_size: u32) -> (p: ContextPlan)
    ensures
        p == context_plan_of(context_size, batch_size),
{
    let n_ctx = if context_size >= 512 { context_size } else { 512 };
    let upper = if context_size >= 32 { context_size } else { 32 };
    let low = if batch_size >= 32 { batch_size } else { 32 };
    let batch = if low <= upper { low } else { upper };
    let half = batch / 2;
    let u = if half >= 32 { half } else { 32 };
    let ubatch = if u <= batch { u } else { batch };
    ContextPlan { n_ctx, n_batch: batch, n_ubatch: ubatch }
}

/// The sampler's seed: `top_k` when positive, else 42.
pub fn sampler_seed(top_k: i32) -> (s: u32)
    ensures
        s == (if top_k <= 0 { 42 } else { top_k as u32 }),
{
    if top_k <= 0 {
        42
    } else {
        top_k as u32
    }
}

/// `s` without its trailing `/` characters.
pub open spec fn without_trailing_slashes(s: Seq<char>) -> Seq<char>
    decreases s.len(),
{
    if s.len() > 0 && s.last() == '/' {
        without_trailing_slashes(s.drop_last())
    } else {
        s
    }
}

/// The chat endpoint of the Ollama server at `host`: `http://` is put in
/// front unless the host names its scheme, and trailing slashes are dropped.
pub open spec fn ollama_chat_url_of(host: Seq<char>) -> Seq<char> {
    let base = if occurs_at(host, "http://"@, 0) || occurs_at(host, "https://"@, 0) {
        host
    } else {
        "http://"@ + host
    };
    without_trailing_slashes(base) + "/api/chat"@
}

/// Whether `v` starts with the characters of `lit`.
fn starts_with_text(v: &Vec<char>, lit: &str) -> (b: bool)
    ensures
        b == occurs_at(v@, lit@, 0),
{
    let p = chars_of(lit);
    crate::text::matches_at(v, &p, 0)
}

/// The chat endpoint of the Ollama server at `host`.
pub fn ollama_chat_url(host: &str) -> (u: String)
    ensures
        u@ == ollama_chat_url_of(host@),
{
    let hv = chars_of(host);
    let mut base = if starts_with_text(&hv, "http://") || starts_with_text(&hv, "https://") {
        host.to_owned()
    } else {
        let mut b = "http://".to_owned();
        b.append(host);
        b
    };
    let v = chars_of(base.as_str());
    let mut hi = v.len();
    assert(v@.take(hi as int) =~= v@);
    while hi > 0 && v[hi - 1] == '/'
        invariant
            hi <= v@.len(),
            without_trailing_slashes(v@) == without_trailing_slashes(v@.take(hi as int)),
        decreases hi,
    {
        assert(v@.take(hi as int).drop_last() =~= v@.take(hi - 1));
        hi = hi - 1;
    }
    let mut u = string_from_range(&v, 0, hi);
    assert(v@.subrange(0, hi as int) =~= v@.take(hi as int));
    u.append("/api/chat");
    u
}

/// The address that generates content with the Gemini model `model`.
pub fn gemini_url(model: &str) -> (u: String)
    ensures
        u@ == "https://generativelanguage.googleapis.com/v1beta/models/"@ + model@ + ":generateContent"@,
{
    let mut u = "https://generativelanguage.googleapis.com/v1beta/models/".to_owned();
    u.append(model);
    u.append(":generateContent");
    u
}

/// The chat-completions address of the LLMAPI service.
pub const LLMAPI_URL: &'static str = "https://api.llmapi.ai/v1/chat/completions";

} // verus!
