//! Booting the assistant: the server build to run, the accelerator to
//! download for the hardware, and the progress reported while downloading.
use vstd::prelude::*;
use crate::assistant::Backend;
use crate::text;

verus! {

/// The port the server listens on.
pub const HOST_PORT: u32 = 8080;

/// The number of model layers the server runs on the GPU.
pub const GPU_LAYERS: u32 = 80;

/// The server build used when none is installed and the latest one cannot
/// be found out.
pub const FALLBACK_BUILD: u32 = 6756;

/// The host the server listens on.
pub open spec fn host_of() -> Seq<char> {
    "127.0.0.1"@
}

/// The host the server listens on.
pub fn host() -> (h: String)
    ensures
        h@ == host_of(),
{
    "127.0.0.1".to_owned()
}

/// The build to run: the newest installed one, else the latest released one,
/// else [`FALLBACK_BUILD`]. `installed` is sorted, oldest first.
pub open spec fn build_to_run(installed: Seq<u32>, latest: Option<u32>) -> u32 {
    if installed.len() > 0 {
        installed.last()
    } else {
        match latest {
            Some(build) => build,
            None => FALLBACK_BUILD,
        }
    }
}

/// With builds installed (oldest first), the build run is an installed one,
/// and none installed is newer; with none installed, it is the latest
/// released one when that is known.
pub proof fn lemma_build_choice(installed: Seq<u32>, latest: Option<u32>)
    requires
        forall|i: int, j: int| 0 <= i <= j < installed.len() ==> installed[i] <= installed[j],
    ensures
        installed.len() > 0 ==> installed.contains(build_to_run(installed, latest)),
        installed.len() > 0 ==> forall|i: int| 0 <= i < installed.len() ==> installed[i] <= build_to_run(installed, latest),
        installed.len() == 0 ==> (latest matches Some(b) ==> build_to_run(installed, latest) == b),
{
    if installed.len() > 0 {
        assert(installed[installed.len() - 1] == installed.last());
    }
}

/// Picks the build to run from the installed ones (sorted, oldest first) and
/// the latest released one, if it could be found out.
pub fn select_build(installed: &Vec<u32>, latest: Option<u32>) -> (build: u32)
    ensures
        build == build_to_run(installed@, latest),
{
    if installed.len() > 0 {
        installed[installed.len() - 1]
    } else {
        match latest {
            Some(build) => build,
            None => FALLBACK_BUILD,
        }
    }
}

/// A GPU backend of the server.
#[derive(Debug, Clone, Copy, PartialEq, Eq, Structural)]
pub enum Accelerator {
    Cuda,
    Hip,
}

/// The accelerator to download for a hardware backend, if any.
pub open spec fn accelerator_for(backend: Backend) -> Option<Accelerator> {
    match backend {
        Backend::Cpu => None,
        Backend::Cuda => Some(Accelerator::Cuda),
        Backend::Rocm => Some(Accelerator::Hip),
    }
}

impl Backend {
    /// The accelerator to download for the backend: CUDA for CUDA, HIP for
    /// ROCm, none for the CPU.
    pub fn accelerator(self) -> (a: Option<Accelerator>)
        ensures
            a == accelerator_for(self),
    {
        match self {
            Backend::Cpu => None,
            Backend::Cuda => Some(Accelerator::Cuda),
            Backend::Rocm => Some(Accelerator::Hip),
        }
    }
}

/// A piece of the server being downloaded.
#[derive(Debug, Clone, Copy, PartialEq, Eq, Structural)]
pub enum Artifact {
    Server,
    Backend(Accelerator),
}

/// What a downloaded piece is called in the progress report.
pub open spec fn component_of(artifact: Artifact) -> Seq<char> {
    match artifact {
        Artifact::Server => "llama-server"@,
        Artifact::Backend(Accelerator::Cuda) => "CUDA backend"@,
        Artifact::Backend(Accelerator::Hip) => "ROCm backend"@,
    }
}

impl Artifact {
    /// What the piece is called in the progress report.
    pub fn component(self) -> (c: &'static str)
        ensures
            c@ == component_of(self),
    {
        match self {
            Artifact::Server => "llama-server",
            Artifact::Backend(Accelerator::Cuda) => "CUDA backend",
            Artifact::Backend(Accelerator::Hip) => "ROCm backend",
        }
    }
}

/// The stage reported while a piece of the server downloads.
pub open spec fn download_stage_of(artifact: Artifact) -> Seq<char> {
    "Downloading "@ + component_of(artifact) + "..."@
}

/// The stage reported while a piece of the server downloads.
pub fn download_stage(artifact: Artifact) -> (s: String)
    ensures
        s@ == download_stage_of(artifact),
{
    let mut s = "Downloading ".to_owned();
    s.append(artifact.component());
    s.append("...");
    s
}

/// The stage reported while the model downloads.
pub open spec fn model_stage_of() -> Seq<char> {
    "Downloading model..."@
}

/// The stage reported while the model downloads.
pub fn model_stage() -> (s: String)
    ensures
        s@ == model_stage_of(),
{
    "Downloading model...".to_owned()
}

/// The stage reported while the model loads, and its percentage.
pub open spec fn loading_stage_of() -> (Seq<char>, u32) {
    ("Loading model..."@, 99)
}

/// The stage reported while the model loads, and its percentage.
pub fn loading_stage() -> (s: (String, u32))
    ensures
        (s.0@, s.1) == loading_stage_of(),
{
    ("Loading model...".to_owned(), 99)
}

/// The address of the server's chat completions endpoint.
pub open spec fn completions_url_of() -> Seq<char> {
    "http://localhost:"@ + text::decimal_of(HOST_PORT as nat) + "/v1/chat/completions"@
}

/// The address of the server's chat completions endpoint.
pub fn completions_url() -> (u: String)
    ensures
        u@ == completions_url_of(),
{
    let mut u = "http://localhost:".to_owned();
    text::push_decimal(&mut u, HOST_PORT as u64);
    u.append("/v1/chat/completions");
    u
}

/// Download progress is reported once per percentage: a report that repeats
/// the last percentage is dropped.
#[derive(Debug)]
pub struct Reporter {
    last: Option<u32>,
}

impl View for Reporter {
    type V = Option<u32>;

    closed spec fn view(&self) -> Option<u32> {
        self.last
    }
}

impl Reporter {
    /// Nothing reported yet.
    pub fn new() -> (r: Reporter)
        ensures
            r@ is None,
    {
        Reporter { last: None }
    }

    /// Whether a report at `percent` goes out; if it does, it becomes the last one.
    pub fn admits(&mut self, percent: u32) -> (fresh: bool)
        ensures
            fresh == (old(self)@ != Some(percent)),
            final(self)@ == Some(percent),
    {
        if self.last == Some(percent) {
            false
        } else {
            self.last = Some(percent);
            true
        }
    }
}

} // verus!
