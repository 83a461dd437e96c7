//! The native build matrix: which static libraries are built for which platform,
//! where each one is written, and when the whole matrix is skipped or cleaned.
use vstd::prelude::*;
use vstd::string::*;
use crate::error::CustomError;
use crate::paths::{
    extension, extension_of, file_name_of, join, join_of, lacks, lemma_extension_of_name,
    lemma_lacks_concat, lemma_last_index_is,
};
use crate::text::{push_owned, push_string, strs};

verus! {

/// The platform a library is built for.
#[derive(Debug, Clone, Copy, PartialEq, Eq, Structural)]
pub enum Platform {
    Windows,
    Macos,
    Linux,
    Wasm,
}

/// The processor architecture of a desktop build.
#[derive(Debug, Clone, Copy, PartialEq, Eq, Structural)]
pub enum Arch {
    X64,
    Arm64,
}

/// The build profile.
#[derive(Debug, Clone, Copy, PartialEq, Eq, Structural)]
pub enum Profile {
    Debug,
    Release,
}

/// What the pipeline builds for.
#[derive(Debug, Clone, Copy, PartialEq, Eq, Structural)]
pub enum Target {
    Desktop,
    Web,
}

/// A graphics backend.
#[derive(Debug, Clone, Copy, PartialEq, Eq, Structural)]
pub enum Backend {
    D3d11,
    Metal,
    GlCore,
    Gles3,
}

/// A native library module.
#[derive(Debug, Clone, Copy, PartialEq, Eq, Structural)]
pub enum Module {
    Log,
    Gfx,
    App,
    Glue,
    Time,
    Audio,
    Debugtext,
    Shape,
    Gl,
}

/// One cell of the build matrix.
#[derive(Debug, Clone, Copy, PartialEq, Eq, Structural)]
pub struct BuildTask {
    pub module: Module,
    pub backend: Backend,
    pub profile: Profile,
    pub platform: Platform,
}

impl Platform {
    /// The name of the platform in artifact names.
    pub open spec fn name_of(self) -> Seq<char> {
        match self {
            Platform::Windows => "windows"@,
            Platform::Macos => "macos"@,
            Platform::Linux => "linux"@,
            Platform::Wasm => "wasm"@,
        }
    }

    /// The name of the platform in artifact names.
    pub fn name(&self) -> (s: &'static str)
        ensures
            s@ == self.name_of(),
    {
        match self {
            Platform::Windows => "windows",
            Platform::Macos => "macos",
            Platform::Linux => "linux",
            Platform::Wasm => "wasm",
        }
    }

    /// The extension of a static library on the platform.
    pub open spec fn lib_extension_of(self) -> Seq<char> {
        match self {
            Platform::Windows => "lib"@,
            _ => "a"@,
        }
    }

    /// The extension of a static library on the platform.
    pub fn lib_extension(&self) -> (s: &'static str)
        ensures
            s@ == self.lib_extension_of(),
    {
        match self {
            Platform::Windows => "lib",
            _ => "a",
        }
    }

    /// The platform with the given operating system name, if it is a desktop
    /// platform that the matrix supports.
    pub fn from_os(os: &str) -> (p: Option<Platform>)
        ensures
            p == platform_of(os@),
    {
        let name = String::from_str(os);
        if name == String::from_str("windows") {
            Some(Platform::Windows)
        } else if name == String::from_str("macos") {
            Some(Platform::Macos)
        } else if name == String::from_str("linux") {
            Some(Platform::Linux)
        } else {
            None
        }
    }
}

impl Arch {
    /// The name of the architecture in artifact names.
    pub open spec fn name_of(self) -> Seq<char> {
        match self {
            Arch::X64 => "x64"@,
            Arch::Arm64 => "arm64"@,
        }
    }

    /// The name of the architecture in artifact names.
    pub fn name(&self) -> (s: &'static str)
        ensures
            s@ == self.name_of(),
    {
        match self {
            Arch::X64 => "x64",
            Arch::Arm64 => "arm64",
        }
    }

    /// The name of the architecture as the macOS compiler wants it.
    pub open spec fn mac_name_of(self) -> Seq<char> {
        match self {
            Arch::X64 => "x86_64"@,
            Arch::Arm64 => "arm64"@,
        }
    }

    /// The name of the architecture as the macOS compiler wants it.
    pub fn mac_name(&self) -> (s: &'static str)
        ensures
            s@ == self.mac_name_of(),
    {
        match self {
            Arch::X64 => "x86_64",
            Arch::Arm64 => "arm64",
        }
    }
}

impl Profile {
    /// The name of the profile in artifact names.
    pub open spec fn suffix_of(self) -> Seq<char> {
        match self {
            Profile::Debug => "debug"@,
            Profile::Release => "release"@,
        }
    }

    /// The name of the profile in artifact names.
    pub fn suffix(&self) -> (s: &'static str)
        ensures
            s@ == self.suffix_of(),
    {
        match self {
            Profile::Debug => "debug",
            Profile::Release => "release",
        }
    }

    /// The profile for the debug flag of the build.
    pub fn from_debug(is_debug: bool) -> (p: Profile)
        ensures
            p == if is_debug {
                Profile::Debug
            } else {
                Profile::Release
            },
    {
        if is_debug {
            Profile::Debug
        } else {
            Profile::Release
        }
    }
}

impl Backend {
    /// The preprocessor symbol that selects the backend.
    pub open spec fn define_of(self) -> Seq<char> {
        match self {
            Backend::D3d11 => "SOKOL_D3D11"@,
            Backend::Metal => "SOKOL_METAL"@,
            Backend::GlCore => "SOKOL_GLCORE"@,
            Backend::Gles3 => "SOKOL_GLES3"@,
        }
    }

    /// The preprocessor symbol that selects the backend.
    pub fn define(&self) -> (s: &'static str)
        ensures
            s@ == self.define_of(),
    {
        match self {
            Backend::D3d11 => "SOKOL_D3D11",
            Backend::Metal => "SOKOL_METAL",
            Backend::GlCore => "SOKOL_GLCORE",
            Backend::Gles3 => "SOKOL_GLES3",
        }
    }

    /// The name of the backend in artifact names.
    pub open spec fn suffix_of(self) -> Seq<char> {
        match self {
            Backend::D3d11 => "d3d11"@,
            Backend::Metal => "metal"@,
            Backend::GlCore => "gl"@,
            Backend::Gles3 => "gl"@,
        }
    }

    /// The name of the backend in artifact names.
    pub fn suffix(&self) -> (s: &'static str)
        ensures
            s@ == self.suffix_of(),
    {
        match self {
            Backend::D3d11 => "d3d11",
            Backend::Metal => "metal",
            Backend::GlCore => "gl",
            Backend::Gles3 => "gl",
        }
    }
}

impl Module {
    /// The name of the module's directory.
    pub open spec fn folder_of(self) -> Seq<char> {
        match self {
            Module::Log => "log"@,
            Module::Gfx => "gfx"@,
            Module::App => "app"@,
            Module::Glue => "glue"@,
            Module::Time => "time"@,
            Module::Audio => "audio"@,
            Module::Debugtext => "debugtext"@,
            Module::Shape => "shape"@,
            Module::Gl => "gl"@,
        }
    }

    /// The name of the module's directory.
    pub fn folder(&self) -> (s: &'static str)
        ensures
            s@ == self.folder_of(),
    {
        match self {
            Module::Log => "log",
            Module::Gfx => "gfx",
            Module::App => "app",
            Module::Glue => "glue",
            Module::Time => "time",
            Module::Audio => "audio",
            Module::Debugtext => "debugtext",
            Module::Shape => "shape",
            Module::Gl => "gl",
        }
    }

    /// The name of the module: `sokol_` and the name of its directory.
    pub open spec fn name_of(self) -> Seq<char> {
        "sokol_"@ + self.folder_of()
    }

    /// The name of the module.
    pub fn name(&self) -> (s: String)
        ensures
            s@ == self.name_of(),
    {
        String::from_str("sokol_").concat(self.folder())
    }

    /// The position of the module in the fixed module list.
    pub open spec fn index_of(self) -> int {
        match self {
            Module::Log => 0,
            Module::Gfx => 1,
            Module::App => 2,
            Module::Glue => 3,
            Module::Time => 4,
            Module::Audio => 5,
            Module::Debugtext => 6,
            Module::Shape => 7,
            Module::Gl => 8,
        }
    }
}

/// The fixed module list.
pub open spec fn module_list() -> Seq<Module> {
    seq![
        Module::Log,
        Module::Gfx,
        Module::App,
        Module::Glue,
        Module::Time,
        Module::Audio,
        Module::Debugtext,
        Module::Shape,
        Module::Gl,
    ]
}

/// The fixed module list.
pub fn modules() -> (list: Vec<Module>)
    ensures
        list@ == module_list(),
        list@.len() == 9,
{
    let mut list: Vec<Module> = Vec::new();
    list.push(Module::Log);
    list.push(Module::Gfx);
    list.push(Module::App);
    list.push(Module::Glue);
    list.push(Module::Time);
    list.push(Module::Audio);
    list.push(Module::Debugtext);
    list.push(Module::Shape);
    list.push(Module::Gl);
    assert(list@ =~= module_list());
    list
}

/// The graphics backends of a platform, the default backend first.
pub open spec fn backend_list(platform: Platform) -> Seq<Backend> {
    match platform {
        Platform::Windows => seq![Backend::D3d11, Backend::GlCore],
        Platform::Macos => seq![Backend::Metal, Backend::GlCore],
        Platform::Linux => seq![Backend::GlCore],
        Platform::Wasm => seq![Backend::Gles3],
    }
}

/// The graphics backends of a platform, the default backend first.
pub fn backends(platform: Platform) -> (list: Vec<Backend>)
    ensures
        list@ == backend_list(platform),
        1 <= list@.len() <= 2,
{
    let mut list: Vec<Backend> = Vec::new();
    match platform {
        Platform::Windows => {
            list.push(Backend::D3d11);
            list.push(Backend::GlCore);
        },
        Platform::Macos => {
            list.push(Backend::Metal);
            list.push(Backend::GlCore);
        },
        Platform::Linux => {
            list.push(Backend::GlCore);
        },
        Platform::Wasm => {
            list.push(Backend::Gles3);
        },
    }
    assert(list@ =~= backend_list(platform));
    list
}

/// The profiles that the web matrix builds.
pub open spec fn web_profiles() -> Seq<Profile> {
    seq![Profile::Debug, Profile::Release]
}

/// The tasks of the desktop matrix for a platform and a profile: every module with
/// every backend of the platform, module by module.
pub open spec fn desktop_matrix(platform: Platform, profile: Profile) -> Seq<BuildTask> {
    let nb = backend_list(platform).len() as int;
    Seq::new(
        (9 * nb) as nat,
        |k: int|
            BuildTask {
                module: module_list()[k / nb],
                backend: backend_list(platform)[k % nb],
                profile,
                platform,
            },
    )
}

/// The tasks of the web matrix: every module in both profiles, module by module.
pub open spec fn web_matrix() -> Seq<BuildTask> {
    Seq::new(
        18,
        |k: int|
            BuildTask {
                module: module_list()[k / 2],
                backend: Backend::Gles3,
                profile: web_profiles()[k % 2],
                platform: Platform::Wasm,
            },
    )
}

/// Computes the tasks of the desktop matrix.
pub fn desktop_tasks(platform: Platform, profile: Profile) -> (tasks: Vec<BuildTask>)
    ensures
        tasks@ == desktop_matrix(platform, profile),
        tasks@.len() == 9 * backend_list(platform).len(),
{
    let mods = modules();
    let backs = backends(platform);
    let nb: usize = backs.len();
    let mut tasks: Vec<BuildTask> = Vec::new();
    let mut i: usize = 0;
    while i < 9
        invariant
            i <= 9,
            mods@ == module_list(),
            backs@ == backend_list(platform),
            nb == backs@.len(),
            1 <= nb <= 2,
            tasks@.len() == i * nb,
            forall|k: int| 0 <= k < tasks@.len() ==> #[trigger] tasks@[k] == desktop_matrix(platform, profile)[k],
        decreases 9 - i,
    {
        let mut j: usize = 0;
        while j < nb
            invariant
                i < 9,
                j <= nb,
                mods@ == module_list(),
                backs@ == backend_list(platform),
                nb == backs@.len(),
                1 <= nb <= 2,
                tasks@.len() == i * nb + j,
                forall|k: int|
                    0 <= k < tasks@.len() ==> #[trigger] tasks@[k] == desktop_matrix(
                        platform,
                        profile,
                    )[k],
            decreases nb - j,
        {
            let ghost k = (i * nb + j) as int;
            proof {
                vstd::arithmetic::div_mod::lemma_fundamental_div_mod_converse(
                    k,
                    nb as int,
                    i as int,
                    j as int,
                );
                assert(k < 9 * nb) by (nonlinear_arith)
                    requires
                        k == i * nb + j,
                        i < 9,
                        j < nb,
                ;
            }
            tasks.push(BuildTask { module: mods[i], backend: backs[j], profile, platform });
            j = j + 1;
        }
        proof {
            assert(i * nb + nb == (i + 1) * nb) by (nonlinear_arith);
        }
        i = i + 1;
    }
    assert(tasks@ =~= desktop_matrix(platform, profile));
    tasks
}

/// Computes the tasks of the web matrix.
pub fn wasm_tasks() -> (tasks: Vec<BuildTask>)
    ensures
        tasks@ == web_matrix(),
        tasks@.len() == 18,
{
    let mods = modules();
    let mut tasks: Vec<BuildTask> = Vec::new();
    let mut i: usize = 0;
    while i < 9
        invariant
            i <= 9,
            mods@ == module_list(),
            tasks@.len() == 2 * i,
            forall|k: int| 0 <= k < tasks@.len() ==> #[trigger] tasks@[k] == web_matrix()[k],
        decreases 9 - i,
    {
        tasks.push(
            BuildTask {
                module: mods[i],
                backend: Backend::Gles3,
                profile: Profile::Debug,
                platform: Platform::Wasm,
            },
        );
        tasks.push(
            BuildTask {
                module: mods[i],
                backend: Backend::Gles3,
                profile: Profile::Release,
                platform: Platform::Wasm,
            },
        );
        i = i + 1;
    }
    assert(tasks@ =~= web_matrix());
    tasks
}

/// The desktop matrix holds every combination of a module and a backend of the
/// platform exactly once, so it has as many tasks as there are combinations.
pub proof fn lemma_matrix_complete(platform: Platform, profile: Profile, module: Module, b: int)
    requires
        0 <= b < backend_list(platform).len(),
    ensures
        desktop_matrix(platform, profile).len() == module_list().len() * backend_list(
            platform,
        ).len(),
        ({
            let nb = backend_list(platform).len() as int;
            let k = module.index_of() * nb + b;
            &&& 0 <= k < desktop_matrix(platform, profile).len()
            &&& desktop_matrix(platform, profile)[k] == BuildTask {
                module,
                backend: backend_list(platform)[b],
                profile,
                platform,
            }
            &&& forall|other: int|
                0 <= other < desktop_matrix(platform, profile).len() && other != k ==> #[trigger] desktop_matrix(
                    platform,
                    profile,
                )[other].module != module || desktop_matrix(platform, profile)[other].backend
                    != backend_list(platform)[b]
        }),
{
    let nb = backend_list(platform).len() as int;
    let k = module.index_of() * nb + b;
    let m = desktop_matrix(platform, profile);
    assert(0 <= k < 9 * nb) by (nonlinear_arith)
        requires
            k == module.index_of() * nb + b,
            0 <= module.index_of() < 9,
            0 <= b < nb,
    ;
    vstd::arithmetic::div_mod::lemma_fundamental_div_mod_converse(k, nb, module.index_of(), b);
    assert(module_list()[module.index_of()] == module);
    assert forall|other: int| 0 <= other < m.len() && other != k implies #[trigger] m[other].module
        != module || m[other].backend != backend_list(platform)[b] by {
        let oi = other / nb;
        let oj = other % nb;
        vstd::arithmetic::div_mod::lemma_fundamental_div_mod(other, nb);
        vstd::arithmetic::div_mod::lemma_mod_bound(other, nb);
        assert(0 <= oi < 9) by (nonlinear_arith)
            requires
                other == nb * oi + oj,
                0 <= oj < nb,
                0 <= other < 9 * nb,
        ;
        if m[other].module == module && m[other].backend == backend_list(platform)[b] {
            assert(module_list()[oi] == module);
            assert(oi == module.index_of());
            assert(oj == b);
            assert(nb * oi == oi * nb) by (nonlinear_arith);
            assert(false);
        }
    }
}

/// The file name of the static library that a task produces.
pub open spec fn lib_file_of(task: BuildTask, arch: Arch) -> Seq<char> {
    match task.platform {
        Platform::Wasm => task.module.name_of() + "_wasm_gl_"@ + task.profile.suffix_of() + ".a"@,
        _ => task.module.name_of() + "_"@ + task.platform.name_of() + "_"@ + arch.name_of() + "_"@
            + task.backend.suffix_of() + "_"@ + task.profile.suffix_of() + "."@
            + task.platform.lib_extension_of(),
    }
}

/// Where a task writes its static library: in the directory of its module under
/// the library root, under a name made of module, platform, architecture, backend
/// and profile.
pub open spec fn artifact_of(root: Seq<char>, task: BuildTask, arch: Arch) -> Seq<char> {
    join_of(join_of(root, task.module.folder_of()), lib_file_of(task, arch))
}

/// The file name of the object file that a task leaves between compiling and archiving.
pub open spec fn object_file_of(task: BuildTask, arch: Arch) -> Seq<char> {
    match task.platform {
        Platform::Wasm => task.module.name_of() + "_"@ + task.profile.suffix_of() + ".o"@,
        Platform::Windows => task.module.name_of() + "_"@ + arch.name_of() + "_"@
            + task.backend.suffix_of() + "_"@ + task.profile.suffix_of() + ".obj"@,
        _ => task.module.name_of() + "_"@ + task.backend.suffix_of() + "_"@
            + task.profile.suffix_of() + ".o"@,
    }
}

/// Where a task writes its object file: directly under the library root.
pub open spec fn object_of(root: Seq<char>, task: BuildTask, arch: Arch) -> Seq<char> {
    join_of(root, object_file_of(task, arch))
}

/// The C source of a task's module, under `c` in the library root.
pub open spec fn source_of(root: Seq<char>, task: BuildTask) -> Seq<char> {
    join_of(join_of(root, "c"@), task.module.name_of() + ".c"@)
}

impl BuildTask {
    /// The file name of the static library that the task produces.
    pub fn lib_file(&self, arch: Arch) -> (s: String)
        ensures
            s@ == lib_file_of(*self, arch),
    {
        match self.platform {
            Platform::Wasm => self.module.name().concat("_wasm_gl_").concat(
                self.profile.suffix(),
            ).concat(".a"),
            _ => self.module.name().concat("_").concat(self.platform.name()).concat("_").concat(
                arch.name(),
            ).concat("_").concat(self.backend.suffix()).concat("_").concat(
                self.profile.suffix(),
            ).concat(".").concat(self.platform.lib_extension()),
        }
    }

    /// Where the task writes its static library.
    pub fn artifact_path(&self, root: &str, arch: Arch) -> (s: String)
        ensures
            s@ == artifact_of(root@, *self, arch),
    {
        let dir = join(root, self.module.folder());
        let file = self.lib_file(arch);
        join(dir.as_str(), file.as_str())
    }

    /// The directory that receives the task's static library.
    pub fn output_dir(&self, root: &str) -> (s: String)
        ensures
            s@ == join_of(root@, self.module.folder_of()),
    {
        join(root, self.module.folder())
    }

    /// Where the task writes its object file.
    pub fn object_path(&self, root: &str, arch: Arch) -> (s: String)
        ensures
            s@ == object_of(root@, *self, arch),
    {
        let file = match self.platform {
            Platform::Wasm => self.module.name().concat("_").concat(self.profile.suffix()).concat(
                ".o",
            ),
            Platform::Windows => self.module.name().concat("_").concat(arch.name()).concat(
                "_",
            ).concat(self.backend.suffix()).concat("_").concat(self.profile.suffix()).concat(
                ".obj",
            ),
            _ => self.module.name().concat("_").concat(self.backend.suffix()).concat("_").concat(
                self.profile.suffix(),
            ).concat(".o"),
        };
        join(root, file.as_str())
    }

    /// The C source of the task's module.
    pub fn source_path(&self, root: &str) -> (s: String)
        ensures
            s@ == source_of(root@, *self),
    {
        let dir = join(root, "c");
        let file = self.module.name().concat(".c");
        join(dir.as_str(), file.as_str())
    }
}

/// The task whose library tells that a matrix was built before: the application
/// module with the default backend, in the requested profile on the desktop and in
/// the release profile on the web.
pub open spec fn marker_task(platform: Platform, profile: Profile) -> BuildTask {
    BuildTask {
        module: Module::App,
        backend: backend_list(platform)[0],
        profile: if platform == Platform::Wasm {
            Profile::Release
        } else {
            profile
        },
        platform,
    }
}

/// The library whose presence tells that the matrix was built before.
pub fn marker_path(root: &str, platform: Platform, arch: Arch, profile: Profile) -> (s: String)
    ensures
        s@ == artifact_of(root@, marker_task(platform, profile), arch),
{
    let backs = backends(platform);
    let task = BuildTask {
        module: Module::App,
        backend: backs[0],
        profile: match platform {
            Platform::Wasm => Profile::Release,
            _ => profile,
        },
        platform,
    };
    task.artifact_path(root, arch)
}

/// An external tool invocation: the program, its arguments, and the environment
/// variables set for it.
#[derive(Debug)]
pub struct ToolCommand {
    pub program: String,
    pub args: Vec<String>,
    pub env: Vec<(String, String)>,
}

/// The toolchain that builds for a platform.
#[derive(Debug, Clone, Copy, PartialEq, Eq, Structural)]
pub enum Toolchain {
    Msvc,
    ClangUnix,
    Emscripten,
}

/// The toolchain that builds for a platform.
pub fn toolchain_for(platform: Platform) -> (t: Toolchain)
    ensures
        t == match platform {
            Platform::Windows => Toolchain::Msvc,
            Platform::Wasm => Toolchain::Emscripten,
            _ => Toolchain::ClangUnix,
        },
{
    match platform {
        Platform::Windows => Toolchain::Msvc,
        Platform::Wasm => Toolchain::Emscripten,
        _ => Toolchain::ClangUnix,
    }
}

/// The compiler of the toolchain for a platform, as it is called on the host.
pub open spec fn compiler_of(platform: Platform, host_windows: bool) -> Seq<char> {
    match platform {
        Platform::Windows => "cl"@,
        Platform::Wasm => if host_windows {
            "emcc.bat"@
        } else {
            "emcc"@
        },
        _ => "clang"@,
    }
}

/// The archiver of the toolchain for a platform, as it is called on the host.
pub open spec fn archiver_of(platform: Platform, host_windows: bool) -> Seq<char> {
    match platform {
        Platform::Windows => "lib"@,
        Platform::Wasm => if host_windows {
            "emar.bat"@
        } else {
            "emar"@
        },
        _ => "ar"@,
    }
}

/// The optimisation and debug flags of a profile for the toolchain of a platform.
pub open spec fn profile_flags_of(platform: Platform, profile: Profile) -> Seq<Seq<char>> {
    match (platform, profile) {
        (Platform::Windows, Profile::Debug) => seq!["/D_DEBUG"@, "/Z7"@],
        (Platform::Windows, Profile::Release) => seq!["/O2"@, "/DNDEBUG"@],
        (_, Profile::Debug) => seq!["-g"@],
        (_, Profile::Release) => seq!["-O2"@, "-DNDEBUG"@],
    }
}

/// The arguments of the compiler invocation of a task.
pub open spec fn compile_args_of(root: Seq<char>, task: BuildTask, arch: Arch) -> Seq<Seq<char>> {
    let src = source_of(root, task);
    let obj = object_of(root, task, arch);
    match task.platform {
        Platform::Windows => seq!["/c"@, "/DIMPL"@, "/D"@ + task.backend.define_of()]
            + profile_flags_of(task.platform, task.profile) + seq!["/Fo"@ + obj, src],
        Platform::Macos => seq!["-c"@, "-x"@, "objective-c"@, "-arch"@, arch.mac_name_of()] + seq![
            "-DIMPL"@,
            "-D"@ + task.backend.define_of(),
        ] + profile_flags_of(task.platform, task.profile) + seq![src, "-o"@, obj],
        Platform::Linux => seq!["-c"@, "-x"@, "c"@, "-fPIC"@] + seq![
            "-DIMPL"@,
            "-D"@ + task.backend.define_of(),
        ] + profile_flags_of(task.platform, task.profile) + seq![src, "-o"@, obj],
        Platform::Wasm => seq!["-c"@, "-DIMPL"@, "-D"@ + task.backend.define_of()]
            + profile_flags_of(task.platform, task.profile) + seq![src, "-o"@, obj],
    }
}

/// The arguments of the archiver invocation of a task.
pub open spec fn archive_args_of(root: Seq<char>, task: BuildTask, arch: Arch) -> Seq<Seq<char>> {
    let lib = artifact_of(root, task, arch);
    let obj = object_of(root, task, arch);
    match task.platform {
        Platform::Windows => seq!["/OUT:"@ + lib, obj],
        _ => seq!["rcs"@, lib, obj],
    }
}

fn push_profile_flags(args: &mut Vec<String>, platform: Platform, profile: Profile)
    ensures
        strs(final(args)@) == strs(old(args)@) + profile_flags_of(platform, profile),
{
    match (platform, profile) {
        (Platform::Windows, Profile::Debug) => {
            push_string(args, "/D_DEBUG");
            push_string(args, "/Z7");
        },
        (Platform::Windows, Profile::Release) => {
            push_string(args, "/O2");
            push_string(args, "/DNDEBUG");
        },
        (_, Profile::Debug) => {
            push_string(args, "-g");
        },
        (_, Profile::Release) => {
            push_string(args, "-O2");
            push_string(args, "-DNDEBUG");
        },
    }
    assert(strs(args@) =~= strs(old(args)@) + profile_flags_of(platform, profile));
}

/// The compiler invocation of a task: one call that turns the module's C source into
/// an object file. On macOS the deployment target is set in the environment.
pub fn compile_command(root: &str, task: BuildTask, arch: Arch, host_windows: bool) -> (cmd:
    ToolCommand)
    ensures
        cmd.program@ == compiler_of(task.platform, host_windows),
        strs(cmd.args@) == compile_args_of(root@, task, arch),
        task.platform == Platform::Macos ==> cmd.env@.len() == 1 && cmd.env@[0].0@
            == "MACOSX_DEPLOYMENT_TARGET"@ && cmd.env@[0].1@ == "10.13"@,
        task.platform != Platform::Macos ==> cmd.env@.len() == 0,
{
    let src = task.source_path(root);
    let obj = task.object_path(root, arch);
    let mut args: Vec<String> = Vec::new();
    let mut env: Vec<(String, String)> = Vec::new();
    assert(strs(args@) =~= Seq::<Seq<char>>::empty());
    let program = match task.platform {
        Platform::Windows => {
            push_string(&mut args, "/c");
            push_string(&mut args, "/DIMPL");
            push_owned(&mut args, String::from_str("/D").concat(task.backend.define()));
            push_profile_flags(&mut args, task.platform, task.profile);
            push_owned(&mut args, String::from_str("/Fo").concat(obj.as_str()));
            push_owned(&mut args, src);
            "cl"
        },
        Platform::Macos => {
            push_string(&mut args, "-c");
            push_string(&mut args, "-x");
            push_string(&mut args, "objective-c");
            push_string(&mut args, "-arch");
            push_string(&mut args, arch.mac_name());
            push_string(&mut args, "-DIMPL");
            push_owned(&mut args, String::from_str("-D").concat(task.backend.define()));
            push_profile_flags(&mut args, task.platform, task.profile);
            push_owned(&mut args, src);
            push_string(&mut args, "-o");
            push_owned(&mut args, obj);
            env.push((String::from_str("MACOSX_DEPLOYMENT_TARGET"), String::from_str("10.13")));
            "clang"
        },
        Platform::Linux => {
            push_string(&mut args, "-c");
            push_string(&mut args, "-x");
            push_string(&mut args, "c");
            push_string(&mut args, "-fPIC");
            push_string(&mut args, "-DIMPL");
            push_owned(&mut args, String::from_str("-D").concat(task.backend.define()));
            push_profile_flags(&mut args, task.platform, task.profile);
            push_owned(&mut args, src);
            push_string(&mut args, "-o");
            push_owned(&mut args, obj);
            "clang"
        },
        Platform::Wasm => {
            push_string(&mut args, "-c");
            push_string(&mut args, "-DIMPL");
            push_owned(&mut args, String::from_str("-D").concat(task.backend.define()));
            push_profile_flags(&mut args, task.platform, task.profile);
            push_owned(&mut args, src);
            push_string(&mut args, "-o");
            push_owned(&mut args, obj);
            if host_windows {
                "emcc.bat"
            } else {
                "emcc"
            }
        },
    };
    assert(strs(args@) =~= compile_args_of(root@, task, arch));
    ToolCommand { program: String::from_str(program), args, env }
}

/// The archiver invocation of a task: one call that turns the object file into the
/// task's static library.
pub fn archive_command(root: &str, task: BuildTask, arch: Arch, host_windows: bool) -> (cmd:
    ToolCommand)
    ensures
        cmd.program@ == archiver_of(task.platform, host_windows),
        strs(cmd.args@) == archive_args_of(root@, task, arch),
        cmd.env@.len() == 0,
{
    let lib = task.artifact_path(root, arch);
    let obj = task.object_path(root, arch);
    let mut args: Vec<String> = Vec::new();
    assert(strs(args@) =~= Seq::<Seq<char>>::empty());
    let program = match task.platform {
        Platform::Windows => {
            push_owned(&mut args, String::from_str("/OUT:").concat(lib.as_str()));
            push_owned(&mut args, obj);
            "lib"
        },
        Platform::Wasm => {
            push_string(&mut args, "rcs");
            push_owned(&mut args, lib);
            push_owned(&mut args, obj);
            if host_windows {
                "emar.bat"
            } else {
                "emar"
            }
        },
        _ => {
            push_string(&mut args, "rcs");
            push_owned(&mut args, lib);
            push_owned(&mut args, obj);
            "ar"
        },
    };
    assert(strs(args@) =~= archive_args_of(root@, task, arch));
    ToolCommand { program: String::from_str(program), args, env: Vec::new() }
}

/// What the matrix does in one run.
#[derive(Debug)]
pub enum MatrixPlan {
    /// The matrix was built before: nothing is done.
    Skip,
    /// Every task is executed, after the module directories were purged if `clean`.
    Run { clean: bool, tasks: Vec<BuildTask> },
}

/// The tasks of the matrix for a target: the web matrix for the web, the desktop
/// matrix of the host otherwise.
pub open spec fn matrix_of(target: Target, host: Platform, profile: Profile) -> Seq<BuildTask> {
    match target {
        Target::Web => web_matrix(),
        Target::Desktop => desktop_matrix(host, profile),
    }
}

/// The platform that a target is built for on a host.
pub fn matrix_platform(target: Target, host: Platform) -> (p: Platform)
    ensures
        p == match target {
            Target::Web => Platform::Wasm,
            Target::Desktop => host,
        },
{
    match target {
        Target::Web => Platform::Wasm,
        Target::Desktop => host,
    }
}

/// Decides what one run of the matrix does. The whole matrix is skipped exactly when
/// no clean build is forced and the marker library exists; otherwise every task of
/// the matrix is executed, after a purge exactly when a clean build is forced.
pub fn plan_matrix(
    target: Target,
    host: Platform,
    profile: Profile,
    force_clean: bool,
    marker_exists: bool,
) -> (plan: MatrixPlan)
    ensures
        plan is Skip <==> skips(force_clean, marker_exists),
        plan matches MatrixPlan::Run { clean, tasks } ==> clean == force_clean && tasks@
            == matrix_of(target, host, profile),
{
    if !force_clean && marker_exists {
        return MatrixPlan::Skip;
    }
    let tasks = match target {
        Target::Web => wasm_tasks(),
        Target::Desktop => desktop_tasks(host, profile),
    };
    MatrixPlan::Run { clean: force_clean, tasks }
}

/// What a purge removes from a module directory: every file with an extension other
/// than that of the framework's own sources.
pub open spec fn build_artifact(name: Seq<char>) -> bool {
    extension_of(name) is Some && extension_of(name) != Some("odin"@)
}

/// Tests whether a purge removes the file.
pub fn is_build_artifact(name: &str) -> (r: bool)
    ensures
        r == build_artifact(name@),
{
    match extension(name) {
        None => false,
        Some(e) => {
            let odin = String::from_str("odin");
            !(e == odin)
        },
    }
}

/// The files among the first `n` that a purge removes, in order.
pub open spec fn purged_upto(names: Seq<Seq<char>>, n: nat) -> Seq<Seq<char>>
    decreases n,
{
    if n == 0 {
        Seq::empty()
    } else if build_artifact(names[n - 1]) {
        purged_upto(names, (n - 1) as nat).push(names[n - 1])
    } else {
        purged_upto(names, (n - 1) as nat)
    }
}

/// The files of a module directory that a purge removes.
pub fn purge_list(names: &Vec<String>) -> (doomed: Vec<String>)
    ensures
        strs(doomed@) == purged_upto(strs(names@), names@.len()),
{
    let mut doomed: Vec<String> = Vec::new();
    let mut i: usize = 0;
    assert(strs(doomed@) =~= purged_upto(strs(names@), 0));
    while i < names.len()
        invariant
            i <= names@.len(),
            strs(doomed@) == purged_upto(strs(names@), i as nat),
        decreases names.len() - i,
    {
        assert(strs(names@)[i as int] == names@[i as int]@);
        if is_build_artifact(names[i].as_str()) {
            push_string(&mut doomed, names[i].as_str());
        }
        i = i + 1;
    }
    doomed
}

/// A purge removes exactly the build artifacts.
pub proof fn lemma_purged_members(names: Seq<Seq<char>>, n: nat, name: Seq<char>)
    requires
        n <= names.len(),
    ensures
        purged_upto(names, n).contains(name) <==> build_artifact(name) && names.take(
            n as int,
        ).contains(name),
    decreases n,
{
    if n > 0 {
        let m = (n - 1) as nat;
        lemma_purged_members(names, m, name);
        let prev = purged_upto(names, m);
        assert(names.take(n as int) =~= names.take(m as int).push(names[n - 1]));
        if names.take(m as int).contains(name) {
            let k = choose|k: int| 0 <= k < m && names.take(m as int)[k] == name;
            assert(names.take(n as int)[k] == name);
        }
        if names.take(n as int).contains(name) {
            let k = choose|k: int| 0 <= k < n && names.take(n as int)[k] == name;
            if k < m {
                assert(names.take(m as int)[k] == name);
            }
        }
        if build_artifact(names[n - 1]) {
            let cur = prev.push(names[n - 1]);
            assert(cur[cur.len() - 1] == names[n - 1]);
            if prev.contains(name) {
                let k = choose|k: int| 0 <= k < prev.len() && prev[k] == name;
                assert(cur[k] == name);
            }
            if cur.contains(name) {
                let k = choose|k: int| 0 <= k < cur.len() && cur[k] == name;
                if k < prev.len() {
                    assert(prev[k] == name);
                }
            }
            if name == names[n - 1] {
                assert(names.take(n as int)[n - 1] == name);
            }
        }
    } else {
        assert(names.take(0).len() == 0);
    }
}

/// The directories that a purge goes through: one for each module.
pub fn clean_dirs(root: &str) -> (dirs: Vec<String>)
    ensures
        dirs@.len() == 9,
        forall|i: int| 0 <= i < 9 ==> (#[trigger] dirs@[i])@ == join_of(root@, module_list()[i].folder_of()),
{
    let mods = modules();
    let mut dirs: Vec<String> = Vec::new();
    let mut i: usize = 0;
    while i < 9
        invariant
            i <= 9,
            mods@ == module_list(),
            dirs@.len() == i,
            forall|k: int|
                0 <= k < i ==> (#[trigger] dirs@[k])@ == join_of(
                    root@,
                    module_list()[k].folder_of(),
                ),
        decreases 9 - i,
    {
        dirs.push(join(root, mods[i].folder()));
        i = i + 1;
    }
    dirs
}

/// One of the two tool invocations of a task.
#[derive(Debug, Clone, Copy, PartialEq, Eq, Structural)]
pub enum BuildStep {
    Compile,
    Archive,
}

/// How one tool invocation ended: whether the tool could be started, whether it
/// reported success, and what it printed.
#[derive(Debug)]
pub struct ToolRun {
    pub spawn_error: Option<String>,
    pub success: bool,
    pub stdout: String,
    pub stderr: String,
}

/// The name under which a task's module appears in error messages.
pub open spec fn module_label_of(task: BuildTask) -> Seq<char> {
    match task.platform {
        Platform::Wasm => task.module.folder_of(),
        _ => task.module.name_of(),
    }
}

/// The beginning of the message for a tool that could not be started.
pub open spec fn spawn_prefix_of(platform: Platform, step: BuildStep) -> Seq<char> {
    match (platform, step) {
        (Platform::Windows, BuildStep::Compile) => "Failed to run cl.exe: "@,
        (Platform::Windows, BuildStep::Archive) => "Failed to run lib.exe: "@,
        (Platform::Wasm, BuildStep::Compile) => "Failed to run emcc: "@,
        (Platform::Wasm, BuildStep::Archive) => "Failed to run emar: "@,
        (_, BuildStep::Compile) => "Clang failed: "@,
        (_, BuildStep::Archive) => "Ar failed: "@,
    }
}

/// The beginning of the message for a tool that ran and reported failure.
pub open spec fn failure_prefix_of(platform: Platform, step: BuildStep) -> Seq<char> {
    match (platform, step) {
        (Platform::Windows, BuildStep::Compile) => "CL compilation failed for "@,
        (Platform::Windows, BuildStep::Archive) => "LIB failed for "@,
        (Platform::Wasm, BuildStep::Compile) => "WASM compilation failed for "@,
        (Platform::Wasm, BuildStep::Archive) => "WASM archiving failed for "@,
        (_, BuildStep::Compile) => "Compilation failed for "@,
        (_, BuildStep::Archive) => "Archive failed for "@,
    }
}

/// What of the tool's output is attached to the failure message: the standard
/// output of the MSVC tools, the standard error of the others.
pub open spec fn failure_output_of(task: BuildTask, step: BuildStep, run: ToolRun) -> Seq<char> {
    match task.platform {
        Platform::Windows => ":\n"@ + run.stdout@,
        _ => ":\n"@ + run.stderr@,
    }
}

/// The detail of the error for a tool that ran and reported failure.
pub open spec fn failure_message_of(task: BuildTask, step: BuildStep, run: ToolRun) -> Seq<char> {
    failure_prefix_of(task.platform, step) + module_label_of(task) + failure_output_of(
        task,
        step,
        run,
    )
}

fn spawn_prefix(platform: Platform, step: BuildStep) -> (s: &'static str)
    ensures
        s@ == spawn_prefix_of(platform, step),
{
    match (platform, step) {
        (Platform::Windows, BuildStep::Compile) => "Failed to run cl.exe: ",
        (Platform::Windows, BuildStep::Archive) => "Failed to run lib.exe: ",
        (Platform::Wasm, BuildStep::Compile) => "Failed to run emcc: ",
        (Platform::Wasm, BuildStep::Archive) => "Failed to run emar: ",
        (_, BuildStep::Compile) => "Clang failed: ",
        (_, BuildStep::Archive) => "Ar failed: ",
    }
}

fn failure_prefix(platform: Platform, step: BuildStep) -> (s: &'static str)
    ensures
        s@ == failure_prefix_of(platform, step),
{
    match (platform, step) {
        (Platform::Windows, BuildStep::Compile) => "CL compilation failed for ",
        (Platform::Windows, BuildStep::Archive) => "LIB failed for ",
        (Platform::Wasm, BuildStep::Compile) => "WASM compilation failed for ",
        (Platform::Wasm, BuildStep::Archive) => "WASM archiving failed for ",
        (_, BuildStep::Compile) => "Compilation failed for ",
        (_, BuildStep::Archive) => "Archive failed for ",
    }
}

/// Turns the end of one tool invocation into the result of that step: a process
/// error when the tool could not be started, a build error with the tool's output
/// when it reported failure, success otherwise.
pub fn step_result(task: BuildTask, step: BuildStep, run: &ToolRun) -> (r: Result<(), CustomError>)
    ensures
        r is Ok <==> run.spawn_error is None && run.success,
        run.spawn_error matches Some(reason) ==> (r matches Err(e) && e is ProcessError
            && e.detail() == spawn_prefix_of(task.platform, step) + reason@),
        run.spawn_error is None && !run.success ==> (r matches Err(e) && e is BuildError
            && e.detail() == failure_message_of(task, step, *run)),
{
    match &run.spawn_error {
        Some(reason) => {
            return Err(
                CustomError::ProcessError(
                    String::from_str(spawn_prefix(task.platform, step)).concat(reason.as_str()),
                ),
            );
        },
        None => {},
    }
    if run.success {
        return Ok(());
    }
    let label = match task.platform {
        Platform::Wasm => String::from_str(task.module.folder()),
        _ => task.module.name(),
    };
    let head = String::from_str(failure_prefix(task.platform, step)).concat(label.as_str());
    let text = match task.platform {
        Platform::Windows => head.concat(
            String::from_str(":\n").concat(run.stdout.as_str()).as_str(),
        ),
        _ => head.concat(String::from_str(":\n").concat(run.stderr.as_str()).as_str()),
    };
    Err(CustomError::BuildError(text))
}

/// The position of the first task that failed, in the order of the matrix.
pub fn first_failure(succeeded: &Vec<bool>) -> (r: Option<usize>)
    ensures
        r is None <==> forall|i: int| 0 <= i < succeeded@.len() ==> succeeded@[i],
        r matches Some(k) ==> k < succeeded@.len() && !succeeded@[k as int] && forall|i: int|
            0 <= i < k ==> succeeded@[i],
{
    let mut i: usize = 0;
    while i < succeeded.len()
        invariant
            i <= succeeded@.len(),
            forall|k: int| 0 <= k < i ==> succeeded@[k],
        decreases succeeded.len() - i,
    {
        if !succeeded[i] {
            return Some(i);
        }
        i = i + 1;
    }
    None
}

/// Where a task stands between its start and its end.
#[derive(Debug, Clone, Copy, PartialEq, Eq, Structural)]
pub enum TaskPhase {
    /// The module's output directory is being created.
    CreateDir,
    /// The compiler runs.
    Compile,
    /// The archiver runs.
    Archive,
    /// The object file is being deleted.
    RemoveObject,
    /// The library is written.
    Done,
    /// A step failed; nothing more is done for the task.
    Failed,
}

/// The phase that follows `phase` once its work ended with the given success.
pub open spec fn phase_after(phase: TaskPhase, succeeded: bool) -> TaskPhase {
    match phase {
        TaskPhase::CreateDir => if succeeded {
            TaskPhase::Compile
        } else {
            TaskPhase::Failed
        },
        TaskPhase::Compile => if succeeded {
            TaskPhase::Archive
        } else {
            TaskPhase::Failed
        },
        TaskPhase::Archive => if succeeded {
            TaskPhase::RemoveObject
        } else {
            TaskPhase::Failed
        },
        TaskPhase::RemoveObject => TaskPhase::Done,
        TaskPhase::Done => TaskPhase::Done,
        TaskPhase::Failed => TaskPhase::Failed,
    }
}

/// Moves a task to its next phase: the directory, the compiler, the archiver, the
/// removal of the object file, in that order; a failed step ends the task, except
/// that a failed removal of the object file does not.
pub fn next_phase(phase: TaskPhase, succeeded: bool) -> (next: TaskPhase)
    ensures
        next == phase_after(phase, succeeded),
{
    match phase {
        TaskPhase::CreateDir => if succeeded {
            TaskPhase::Compile
        } else {
            TaskPhase::Failed
        },
        TaskPhase::Compile => if succeeded {
            TaskPhase::Archive
        } else {
            TaskPhase::Failed
        },
        TaskPhase::Archive => if succeeded {
            TaskPhase::RemoveObject
        } else {
            TaskPhase::Failed
        },
        TaskPhase::RemoveObject => TaskPhase::Done,
        TaskPhase::Done => TaskPhase::Done,
        TaskPhase::Failed => TaskPhase::Failed,
    }
}

/// The phase of a task after the given steps, from its start.
pub open spec fn phase_after_all(outcomes: Seq<bool>) -> TaskPhase
    decreases outcomes.len(),
{
    if outcomes.len() == 0 {
        TaskPhase::CreateDir
    } else {
        phase_after(phase_after_all(outcomes.drop_last()), outcomes.last())
    }
}

/// A task is done only after its directory was created, its compiler succeeded and
/// its archiver succeeded, in that order.
pub proof fn lemma_done_needs_every_step(outcomes: Seq<bool>)
    requires
        phase_after_all(outcomes) == TaskPhase::Done,
    ensures
        outcomes.len() >= 4,
        outcomes[0] && outcomes[1] && outcomes[2],
    decreases outcomes.len(),
{
    lemma_phase_progress(outcomes);
    if outcomes.len() > 4 {
        let rest = outcomes.drop_last();
        lemma_phase_progress(rest);
        lemma_done_needs_every_step(rest);
        assert(rest[0] == outcomes[0] && rest[1] == outcomes[1] && rest[2] == outcomes[2]);
    }
}

/// After `n` steps a task that has not failed stands at phase number `n`, and it is
/// done from the fourth step on.
proof fn lemma_phase_progress(outcomes: Seq<bool>)
    ensures
        ({
            let p = phase_after_all(outcomes);
            &&& outcomes.len() == 0 ==> p == TaskPhase::CreateDir
            &&& outcomes.len() == 1 ==> p == (if outcomes[0] {
                TaskPhase::Compile
            } else {
                TaskPhase::Failed
            })
            &&& outcomes.len() == 2 ==> p == (if outcomes[0] && outcomes[1] {
                TaskPhase::Archive
            } else {
                TaskPhase::Failed
            })
            &&& outcomes.len() == 3 ==> p == (if outcomes[0] && outcomes[1] && outcomes[2] {
                TaskPhase::RemoveObject
            } else {
                TaskPhase::Failed
            })
            &&& outcomes.len() >= 4 ==> p == (if outcomes[0] && outcomes[1] && outcomes[2] {
                TaskPhase::Done
            } else {
                TaskPhase::Failed
            })
        }),
    decreases outcomes.len(),
{
    if outcomes.len() > 0 {
        let rest = outcomes.drop_last();
        lemma_phase_progress(rest);
        assert(forall|i: int| 0 <= i < rest.len() ==> rest[i] == outcomes[i]);
    }
}

/// The names that artifact names are made of hold neither a slash nor a dot and are
/// not empty.
proof fn lemma_plain_names(task: BuildTask, arch: Arch)
    ensures
        lacks(task.module.name_of(), '/') && lacks(task.module.name_of(), '.')
            && task.module.name_of().len() > 0,
        lacks(task.platform.name_of(), '/'),
        lacks(arch.name_of(), '/'),
        lacks(task.backend.suffix_of(), '/'),
        lacks(task.profile.suffix_of(), '/'),
        lacks("_"@, '/'),
        lacks("_wasm_gl_"@, '/'),
        "."@ == seq!['.'],
        ".a"@ == seq!['.'] + "a"@,
        lacks(task.platform.lib_extension_of(), '/') && lacks(
            task.platform.lib_extension_of(),
            '.',
        ) && task.platform.lib_extension_of().len() > 0,
        task.platform.lib_extension_of() != "odin"@,
        lacks("a"@, '/') && lacks("a"@, '.') && "a"@.len() == 1,
{
    reveal_strlit("sokol_");
    reveal_strlit("log");
    reveal_strlit("gfx");
    reveal_strlit("app");
    reveal_strlit("glue");
    reveal_strlit("time");
    reveal_strlit("audio");
    reveal_strlit("debugtext");
    reveal_strlit("shape");
    reveal_strlit("gl");
    reveal_strlit("windows");
    reveal_strlit("macos");
    reveal_strlit("linux");
    reveal_strlit("wasm");
    reveal_strlit("x64");
    reveal_strlit("arm64");
    reveal_strlit("d3d11");
    reveal_strlit("metal");
    reveal_strlit("debug");
    reveal_strlit("release");
    reveal_strlit("_");
    reveal_strlit("_wasm_gl_");
    reveal_strlit(".");
    reveal_strlit(".a");
    reveal_strlit("a");
    reveal_strlit("lib");
    reveal_strlit("odin");
    assert("."@ =~= seq!['.']);
    assert(".a"@ =~= seq!['.'] + "a"@);
    assert("a"@.len() == 1 && "lib"@.len() == 3 && "odin"@.len() == 4);
    assert(lacks("sokol_"@, '/') && lacks("sokol_"@, '.'));
    assert(lacks(task.module.folder_of(), '/') && lacks(task.module.folder_of(), '.'));
    lemma_lacks_concat("sokol_"@, task.module.folder_of(), '/');
    lemma_lacks_concat("sokol_"@, task.module.folder_of(), '.');
}

/// Every library that the matrix writes is a build artifact, so a purge of its
/// module's directory removes it.
pub proof fn lemma_libraries_are_purged(task: BuildTask, arch: Arch)
    ensures
        build_artifact(lib_file_of(task, arch)),
{
    lemma_plain_names(task, arch);
    let name = task.module.name_of();
    match task.platform {
        Platform::Wasm => {
            let a = name + "_wasm_gl_"@;
            let stem = a + task.profile.suffix_of();
            lemma_lacks_concat(name, "_wasm_gl_"@, '/');
            lemma_lacks_concat(a, task.profile.suffix_of(), '/');
            lemma_extension_of_name(stem, "a"@);
            assert(lib_file_of(task, arch) =~= stem + seq!['.'] + "a"@);
            reveal_strlit("a");
            reveal_strlit("odin");
        },
        _ => {
            let s1 = name + "_"@;
            let s2 = s1 + task.platform.name_of();
            let s3 = s2 + "_"@;
            let s4 = s3 + arch.name_of();
            let s5 = s4 + "_"@;
            let s6 = s5 + task.backend.suffix_of();
            let s7 = s6 + "_"@;
            let stem = s7 + task.profile.suffix_of();
            lemma_lacks_concat(name, "_"@, '/');
            lemma_lacks_concat(s1, task.platform.name_of(), '/');
            lemma_lacks_concat(s2, "_"@, '/');
            lemma_lacks_concat(s3, arch.name_of(), '/');
            lemma_lacks_concat(s4, "_"@, '/');
            lemma_lacks_concat(s5, task.backend.suffix_of(), '/');
            lemma_lacks_concat(s6, "_"@, '/');
            lemma_lacks_concat(s7, task.profile.suffix_of(), '/');
            lemma_extension_of_name(stem, task.platform.lib_extension_of());
            assert(lib_file_of(task, arch) =~= stem + seq!['.'] + task.platform.lib_extension_of());
        },
    }
}

/// Whether a run of the matrix is skipped.
pub open spec fn skips(force_clean: bool, marker_exists: bool) -> bool {
    !force_clean && marker_exists
}

/// Whether a file of a module directory is still there after a purge.
pub open spec fn survives_purge(names: Seq<Seq<char>>, name: Seq<char>) -> bool {
    names.contains(name) && !build_artifact(name)
}

/// A forced clean build skips nothing, and the purge it starts with removes the
/// marker library, whatever the module directory held: a normal run that follows
/// the purge does not skip either.
pub proof fn lemma_clean_build_skips_nothing(
    platform: Platform,
    profile: Profile,
    arch: Arch,
    names: Seq<Seq<char>>,
)
    ensures
        !skips(true, names.contains(lib_file_of(marker_task(platform, profile), arch))),
        !survives_purge(names, lib_file_of(marker_task(platform, profile), arch)),
        !skips(false, survives_purge(names, lib_file_of(marker_task(platform, profile), arch))),
        names.contains(lib_file_of(marker_task(platform, profile), arch)) ==> purged_upto(
            names,
            names.len(),
        ).contains(lib_file_of(marker_task(platform, profile), arch)),
{
    let marker = lib_file_of(marker_task(platform, profile), arch);
    lemma_libraries_are_purged(marker_task(platform, profile), arch);
    lemma_purged_members(names, names.len(), marker);
    assert(names.take(names.len() as int) =~= names);
}

/// The directory of the native library sources, relative to the project.
pub open spec fn sokol_lib_dir() -> Seq<char> {
    "bonsai/libs/sokol"@
}

/// The directory of the native library sources, relative to the project.
pub fn sokol_root() -> (root: &'static str)
    ensures
        root@ == sokol_lib_dir(),
{
    "bonsai/libs/sokol"
}

/// The detail of the error for a host whose operating system the matrix does not
/// support.
pub open spec fn unsupported_os_message(os: Seq<char>) -> Seq<char> {
    "Unsupported OS: "@ + os
}

/// The detail of the error for a missing directory of native library sources.
pub open spec fn missing_root_message(root: Seq<char>) -> Seq<char> {
    "Sokol directory not found: "@ + root
}

/// The detail of the error for a missing MSVC compiler.
pub open spec fn missing_msvc_message() -> Seq<char> {
    "The 'cl' command (MSVC compiler) was not found.\nFor Sokol compilation on Windows, you must run this tool from the 'Visual Studio Developer Command Prompt' or a terminal with Build Tools initialized"@
}

/// The detail of the error for a missing Emscripten compiler.
pub open spec fn missing_emcc_message() -> Seq<char> {
    "The 'emcc' command was not found.\nPlease install the Emscripten SDK and run 'emsdk_env' to add it to your PATH"@
}

/// What is known of the host before the matrix is planned.
#[derive(Debug)]
pub struct HostFacts {
    /// The name of the host's operating system.
    pub os: String,
    /// Whether the compiler of the target's toolchain can be started.
    pub compiler_found: bool,
    /// Whether the directory of the native library sources exists.
    pub root_exists: bool,
}

/// The platform of a host, by the name of its operating system.
pub open spec fn platform_of(os: Seq<char>) -> Option<Platform> {
    if os == "windows"@ {
        Some(Platform::Windows)
    } else if os == "macos"@ {
        Some(Platform::Macos)
    } else if os == "linux"@ {
        Some(Platform::Linux)
    } else {
        None
    }
}

/// Whether the compiler that the target needs is missing on the host: the Emscripten
/// compiler for the web, the MSVC compiler for the desktop on Windows.
pub open spec fn compiler_missing(target: Target, host: HostFacts) -> bool {
    match target {
        Target::Web => !host.compiler_found,
        Target::Desktop => host.os@ == "windows"@ && !host.compiler_found,
    }
}

/// What the check of the host yields for a target: the platform to build for, or the
/// detail of the error. For the web the Emscripten compiler must be found. For the
/// desktop the MSVC compiler must be found on Windows, the directory of the native
/// library sources must exist, and the operating system must be supported; the
/// first of these that fails is reported.
pub open spec fn preflight_of(target: Target, host: HostFacts, root: Seq<char>) -> Result<
    Platform,
    Seq<char>,
> {
    match target {
        Target::Web => if host.compiler_found {
            Ok(Platform::Wasm)
        } else {
            Err(missing_emcc_message())
        },
        Target::Desktop => if host.os@ == "windows"@ && !host.compiler_found {
            Err(missing_msvc_message())
        } else if !host.root_exists {
            Err(missing_root_message(root))
        } else {
            match platform_of(host.os@) {
                Some(p) => Ok(p),
                None => Err(unsupported_os_message(host.os@)),
            }
        },
    }
}

/// Checks the host before the matrix is planned and names the platform to build for.
/// A compiler that cannot be started is a process error; a missing source directory
/// and an unsupported operating system are build errors.
pub fn preflight(target: Target, host: &HostFacts, root: &str) -> (r: Result<Platform, CustomError>)
    ensures
        r is Ok == preflight_of(target, *host, root@) is Ok,
        r matches Ok(p) ==> preflight_of(target, *host, root@) == Ok::<Platform, Seq<char>>(p),
        r matches Err(e) ==> preflight_of(target, *host, root@) == Err::<Platform, Seq<char>>(
            e.detail(),
        ),
        r matches Err(e) ==> (e is ProcessError <==> compiler_missing(target, *host)),
        r matches Err(e) ==> (e is BuildError <==> !compiler_missing(target, *host)),
{
    match target {
        Target::Web => {
            if host.compiler_found {
                Ok(Platform::Wasm)
            } else {
                Err(
                    CustomError::ProcessError(
                        String::from_str(
                            "The 'emcc' command was not found.\nPlease install the Emscripten SDK and run 'emsdk_env' to add it to your PATH",
                        ),
                    ),
                )
            }
        },
        Target::Desktop => {
            let platform = Platform::from_os(host.os.as_str());
            let on_windows = match platform {
                Some(Platform::Windows) => true,
                _ => false,
            };
            if on_windows && !host.compiler_found {
                return Err(
                    CustomError::ProcessError(
                        String::from_str(
                            "The 'cl' command (MSVC compiler) was not found.\nFor Sokol compilation on Windows, you must run this tool from the 'Visual Studio Developer Command Prompt' or a terminal with Build Tools initialized",
                        ),
                    ),
                );
            }
            if !host.root_exists {
                return Err(
                    CustomError::BuildError(
                        String::from_str("Sokol directory not found: ").concat(root),
                    ),
                );
            }
            match platform {
                Some(p) => Ok(p),
                None => Err(
                    CustomError::BuildError(
                        String::from_str("Unsupported OS: ").concat(host.os.as_str()),
                    ),
                ),
            }
        },
    }
}

/// The detail of the error for a processor that macOS builds do not support.
pub open spec fn unsupported_mac_arch_message(name: Seq<char>) -> Seq<char> {
    "unsupported macOS arch: "@ + name
}

/// The architecture that a macOS build is made for, by the name the host gives its
/// processor; `None` for a processor that macOS builds do not support.
pub open spec fn mac_arch_of(name: Seq<char>) -> Option<Arch> {
    if name == "aarch64"@ {
        Some(Arch::Arm64)
    } else if name == "x86_64"@ {
        Some(Arch::X64)
    } else {
        None
    }
}

impl Arch {
    /// The architecture that a macOS build is made for: `arm64` for `aarch64`, `x86_64`
    /// for `x86_64`, and a build error for every other processor.
    pub fn for_macos(name: &str) -> (r: Result<Arch, CustomError>)
        ensures
            r is Ok == mac_arch_of(name@) is Some,
            r matches Ok(arch) ==> mac_arch_of(name@) == Some(arch),
            r matches Err(e) ==> e is BuildError && e.detail() == unsupported_mac_arch_message(
                name@,
            ),
    {
        let given = String::from_str(name);
        if given == String::from_str("aarch64") {
            Ok(Arch::Arm64)
        } else if given == String::from_str("x86_64") {
            Ok(Arch::X64)
        } else {
            Err(
                CustomError::BuildError(
                    String::from_str("unsupported macOS arch: ").concat(name),
                ),
            )
        }
    }

    /// The architecture in artifact names for the name the host gives its processor:
    /// `x64` for `x86_64`, `arm64` for every other.
    pub fn from_name(name: &str) -> (arch: Arch)
        ensures
            arch == if name@ == "x86_64"@ {
                Arch::X64
            } else {
                Arch::Arm64
            },
    {
        if String::from_str(name) == String::from_str("x86_64") {
            Arch::X64
        } else {
            Arch::Arm64
        }
    }
}

/// How many tasks run at once: as many as the host can run in parallel, at least
/// one, and no more than there are tasks.
pub fn worker_count(available: usize, tasks: usize) -> (n: usize)
    ensures
        n <= tasks,
        tasks > 0 ==> n >= 1,
        n == if tasks == 0 {
            0
        } else if available == 0 {
            1
        } else if available < tasks {
            available
        } else {
            tasks
        },
{
    if tasks == 0 {
        0
    } else if available == 0 {
        1
    } else if available < tasks {
        available
    } else {
        tasks
    }
}

/// Plans the build of the native libraries: checks the host, then decides whether
/// the matrix is skipped or run. `marker_exists` says whether the marker library of
/// the platform that the host check names is there. When the host check fails
/// nothing is planned: nothing is purged, compiled or archived.
pub fn compile_sokol(
    is_web_target: bool,
    is_debug: bool,
    clean: bool,
    host: &HostFacts,
    root: &str,
    marker_exists: bool,
) -> (r: Result<MatrixPlan, CustomError>)
    ensures
        r is Ok == preflight_of(web_target(is_web_target), *host, root@) is Ok,
        r matches Ok(plan) ==> (plan is Skip <==> skips(clean, marker_exists)),
        r matches Ok(MatrixPlan::Run { clean: purge, tasks }) ==> purge == clean && tasks@
            == matrix_of(
            web_target(is_web_target),
            preflight_of(web_target(is_web_target), *host, root@)->Ok_0,
            if is_debug {
                Profile::Debug
            } else {
                Profile::Release
            },
        ),
        r matches Err(e) ==> preflight_of(web_target(is_web_target), *host, root@) == Err::<
            Platform,
            Seq<char>,
        >(e.detail()),
        r matches Err(e) ==> (e is ProcessError <==> compiler_missing(
            web_target(is_web_target),
            *host,
        )),
        r matches Err(e) ==> (e is BuildError <==> !compiler_missing(
            web_target(is_web_target),
            *host,
        )),
{
    let target = if is_web_target {
        Target::Web
    } else {
        Target::Desktop
    };
    let platform = match preflight(target, host, root) {
        Ok(p) => p,
        Err(e) => {
            return Err(e);
        },
    };
    Ok(plan_matrix(target, platform, Profile::from_debug(is_debug), clean, marker_exists))
}

/// The target for the web flag of the build.
pub open spec fn web_target(is_web_target: bool) -> Target {
    if is_web_target {
        Target::Web
    } else {
        Target::Desktop
    }
}

/// Two texts put together from parts with ends of one length agree part by part.
proof fn lemma_same_end(x1: Seq<char>, y1: Seq<char>, x2: Seq<char>, y2: Seq<char>)
    requires
        x1 + y1 == x2 + y2,
        y1.len() == y2.len(),
    ensures
        x1 == x2,
        y1 == y2,
{
    let w = x1 + y1;
    assert(w.len() == x1.len() + y1.len());
    assert((x2 + y2).len() == x2.len() + y2.len());
    assert(x1 =~= w.take(x1.len() as int));
    assert(x2 =~= (x2 + y2).take(x2.len() as int));
    assert(y1 =~= w.skip(x1.len() as int));
    assert(y2 =~= (x2 + y2).skip(x2.len() as int));
}

/// The last character of a profile's name tells the profiles apart.
proof fn lemma_profile_end(p: Profile)
    ensures
        p.suffix_of().len() >= 1,
        p.suffix_of().last() == (if p == Profile::Debug {
            'g'
        } else {
            'e'
        }),
{
    reveal_strlit("debug");
    reveal_strlit("release");
}

/// The last two characters of a backend's name tell the names apart.
proof fn lemma_backend_end(a: Backend, b: Backend)
    ensures
        a.suffix_of().len() >= 2,
        a.suffix_of()[a.suffix_of().len() - 1] == b.suffix_of()[b.suffix_of().len() - 1]
            && a.suffix_of()[a.suffix_of().len() - 2] == b.suffix_of()[b.suffix_of().len() - 2]
            ==> a.suffix_of() == b.suffix_of(),
{
    reveal_strlit("d3d11");
    reveal_strlit("metal");
    reveal_strlit("gl");
}

/// No two modules have the same directory name.
proof fn lemma_folders_differ(a: Module, b: Module)
    requires
        a != b,
    ensures
        a.folder_of() != b.folder_of(),
{
    reveal_strlit("log");
    reveal_strlit("gfx");
    reveal_strlit("app");
    reveal_strlit("glue");
    reveal_strlit("time");
    reveal_strlit("audio");
    reveal_strlit("debugtext");
    reveal_strlit("shape");
    reveal_strlit("gl");
    let x = a.folder_of();
    let y = b.folder_of();
    if x == y {
        assert(x.len() == y.len());
        assert(x[0] == y[0]);
        assert(x[1] == y[1]);
    }
}

/// Two modules with one name are one module.
proof fn lemma_names_differ(a: Module, b: Module)
    requires
        a.name_of() == b.name_of(),
    ensures
        a == b,
{
    if a != b {
        lemma_folders_differ(a, b);
        lemma_same_end(Seq::<char>::empty(), a.name_of(), Seq::<char>::empty(), b.name_of());
        let p = "sokol_"@;
        assert(a.folder_of() =~= a.name_of().skip(p.len() as int));
        assert(b.folder_of() =~= b.name_of().skip(p.len() as int));
    }
}

/// Two texts that end in profile names followed by one and the same ending, and
/// that agree, end in the same profile name and begin alike.
proof fn lemma_profile_told(x1: Seq<char>, p1: Profile, x2: Seq<char>, p2: Profile, e: Seq<char>)
    requires
        x1 + p1.suffix_of() + e == x2 + p2.suffix_of() + e,
    ensures
        p1 == p2,
        x1 == x2,
{
    lemma_profile_end(p1);
    lemma_profile_end(p2);
    let s1 = x1 + p1.suffix_of() + e;
    let s2 = x2 + p2.suffix_of() + e;
    let n = s1.len() as int;
    assert(s1[n - e.len() - 1] == p1.suffix_of().last());
    assert(s2[n - e.len() - 1] == p2.suffix_of().last());
    lemma_same_end(x1 + p1.suffix_of(), e, x2 + p2.suffix_of(), e);
    lemma_same_end(x1, p1.suffix_of(), x2, p2.suffix_of());
}

/// Two texts that end in backend names, and that agree, end in the same backend
/// name and begin alike.
proof fn lemma_backend_told(x1: Seq<char>, b1: Backend, x2: Seq<char>, b2: Backend)
    requires
        x1 + b1.suffix_of() == x2 + b2.suffix_of(),
    ensures
        b1.suffix_of() == b2.suffix_of(),
        x1 == x2,
{
    lemma_backend_end(b1, b2);
    lemma_backend_end(b2, b1);
    let s1 = x1 + b1.suffix_of();
    let s2 = x2 + b2.suffix_of();
    let n = s1.len() as int;
    assert(s1[n - 1] == b1.suffix_of()[b1.suffix_of().len() - 1]);
    assert(s2[n - 1] == b2.suffix_of()[b2.suffix_of().len() - 1]);
    assert(s1[n - 2] == b1.suffix_of()[b1.suffix_of().len() - 2]);
    assert(s2[n - 2] == b2.suffix_of()[b2.suffix_of().len() - 2]);
    lemma_same_end(x1, b1.suffix_of(), x2, b2.suffix_of());
}

/// Two file names of desktop libraries that agree, and that are made with one and
/// the same middle part and ending, agree in profile, backend name and beginning.
proof fn lemma_desktop_told(
    na: Seq<char>,
    nb: Seq<char>,
    c: Seq<char>,
    ba: Backend,
    bb: Backend,
    pa: Profile,
    pb: Profile,
    u: Seq<char>,
    e: Seq<char>,
)
    requires
        na + c + ba.suffix_of() + u + pa.suffix_of() + e == nb + c + bb.suffix_of() + u
            + pb.suffix_of() + e,
    ensures
        pa == pb,
        ba.suffix_of() == bb.suffix_of(),
        na == nb,
{
    lemma_profile_told(na + c + ba.suffix_of() + u, pa, nb + c + bb.suffix_of() + u, pb, e);
    lemma_same_end(na + c + ba.suffix_of(), u, nb + c + bb.suffix_of(), u);
    lemma_backend_told(na + c, ba, nb + c, bb);
    lemma_same_end(na, c, nb, c);
}

/// The file name of a desktop library, put together from its beginning, its
/// middle part and its ending.
proof fn lemma_desktop_form(task: BuildTask, arch: Arch)
    requires
        task.platform != Platform::Wasm,
    ensures
        lib_file_of(task, arch) == task.module.name_of() + ("_"@ + task.platform.name_of() + "_"@
            + arch.name_of() + "_"@) + task.backend.suffix_of() + "_"@
            + task.profile.suffix_of() + ("."@ + task.platform.lib_extension_of()),
{
    let n = task.module.name_of();
    let u = "_"@;
    let os = task.platform.name_of();
    let ar = arch.name_of();
    let sfx = task.backend.suffix_of();
    let p = task.profile.suffix_of();
    let d = "."@;
    let x = task.platform.lib_extension_of();
    assert(lib_file_of(task, arch) == n + u + os + u + ar + u + sfx + u + p + d + x);
    assert(n + u + os + u + ar + u =~= n + (u + os + u + ar + u));
    assert(n + u + os + u + ar + u + sfx + u + p + d + x =~= n + (u + os + u + ar + u) + sfx + u
        + p + (d + x));
}

/// Two tasks for one platform whose file names agree agree in profile, backend
/// name and module.
proof fn lemma_lib_file_tells(a: BuildTask, b: BuildTask, arch: Arch)
    requires
        a.platform == b.platform,
        lib_file_of(a, arch) == lib_file_of(b, arch),
    ensures
        a.profile == b.profile,
        a.platform != Platform::Wasm ==> a.backend.suffix_of() == b.backend.suffix_of(),
        a.module == b.module,
{
    let na = a.module.name_of();
    let nb = b.module.name_of();
    if a.platform == Platform::Wasm {
        let w = "_wasm_gl_"@;
        lemma_profile_told(na + w, a.profile, nb + w, b.profile, ".a"@);
        lemma_same_end(na, w, nb, w);
    } else {
        lemma_desktop_form(a, arch);
        lemma_desktop_form(b, arch);
        lemma_desktop_told(
            na,
            nb,
            "_"@ + a.platform.name_of() + "_"@ + arch.name_of() + "_"@,
            a.backend,
            b.backend,
            a.profile,
            b.profile,
            "_"@,
            "."@ + a.platform.lib_extension_of(),
        );
    }
    lemma_names_differ(a.module, b.module);
}

/// The backends of one platform have names of their own.
proof fn lemma_backend_names_differ(host: Platform, x: int, y: int)
    requires
        0 <= x < backend_list(host).len(),
        0 <= y < backend_list(host).len(),
        backend_list(host)[x].suffix_of() == backend_list(host)[y].suffix_of(),
    ensures
        x == y,
{
    reveal_strlit("d3d11");
    reveal_strlit("metal");
    reveal_strlit("gl");
    if x != y {
        let a = backend_list(host)[x].suffix_of();
        let b = backend_list(host)[y].suffix_of();
        assert(a.len() == b.len());
    }
}

/// The file name of a path made by two joins is the name that was joined last,
/// when that name holds no slash.
proof fn lemma_file_name_of_artifact(root: Seq<char>, task: BuildTask, arch: Arch)
    ensures
        file_name_of(artifact_of(root, task, arch)) == lib_file_of(task, arch),
{
    lemma_plain_names(task, arch);
    lemma_libraries_are_purged(task, arch);
    reveal_strlit("log");
    reveal_strlit("gfx");
    reveal_strlit("app");
    reveal_strlit("glue");
    reveal_strlit("time");
    reveal_strlit("audio");
    reveal_strlit("debugtext");
    reveal_strlit("shape");
    reveal_strlit("gl");
    let folder = task.module.folder_of();
    let dir = join_of(root, folder);
    let file = lib_file_of(task, arch);
    assert(folder.len() >= 2);
    assert(lacks(folder, '/'));
    assert(dir.len() > 0 && dir.last() == folder.last());
    assert(dir.last() != '/');
    let path = artifact_of(root, task, arch);
    assert(path =~= dir.push('/') + file);
    lemma_lacks_file(task, arch);
    assert forall|j: int| dir.len() < j < path.len() implies path[j] != '/' by {
        assert(path[j] == file[j - dir.len() - 1]);
    }
    lemma_last_index_is(path, '/', dir.len() as int);
    assert(path.skip(dir.len() as int + 1) =~= file);
}

/// The file name of a task's library holds no slash.
proof fn lemma_lacks_file(task: BuildTask, arch: Arch)
    ensures
        lacks(lib_file_of(task, arch), '/'),
{
    lemma_plain_names(task, arch);
    reveal_strlit(".");
    reveal_strlit(".a");
    let name = task.module.name_of();
    match task.platform {
        Platform::Wasm => {
            let a = name + "_wasm_gl_"@;
            let b = a + task.profile.suffix_of();
            lemma_lacks_concat(name, "_wasm_gl_"@, '/');
            lemma_lacks_concat(a, task.profile.suffix_of(), '/');
            assert(lacks(".a"@, '/'));
            lemma_lacks_concat(b, ".a"@, '/');
        },
        _ => {
            let s1 = name + "_"@;
            let s2 = s1 + task.platform.name_of();
            let s3 = s2 + "_"@;
            let s4 = s3 + arch.name_of();
            let s5 = s4 + "_"@;
            let s6 = s5 + task.backend.suffix_of();
            let s7 = s6 + "_"@;
            let s8 = s7 + task.profile.suffix_of();
            let s9 = s8 + "."@;
            lemma_lacks_concat(name, "_"@, '/');
            lemma_lacks_concat(s1, task.platform.name_of(), '/');
            lemma_lacks_concat(s2, "_"@, '/');
            lemma_lacks_concat(s3, arch.name_of(), '/');
            lemma_lacks_concat(s4, "_"@, '/');
            lemma_lacks_concat(s5, task.backend.suffix_of(), '/');
            lemma_lacks_concat(s6, "_"@, '/');
            lemma_lacks_concat(s7, task.profile.suffix_of(), '/');
            assert(lacks("."@, '/'));
            lemma_lacks_concat(s8, "."@, '/');
            lemma_lacks_concat(s9, task.platform.lib_extension_of(), '/');
        },
    }
}

/// Each task of a matrix writes to a path of its own: two different tasks of the
/// desktop matrix of a platform, or of the web matrix, never share their library.
pub proof fn lemma_artifact_paths_differ(
    target: Target,
    host: Platform,
    profile: Profile,
    arch: Arch,
    root: Seq<char>,
    i: int,
    j: int,
)
    requires
        0 <= i < matrix_of(target, host, profile).len(),
        0 <= j < matrix_of(target, host, profile).len(),
        i != j,
    ensures
        artifact_of(root, matrix_of(target, host, profile)[i], arch) != artifact_of(
            root,
            matrix_of(target, host, profile)[j],
            arch,
        ),
{
    let m = matrix_of(target, host, profile);
    let a = m[i];
    let b = m[j];
    if artifact_of(root, a, arch) == artifact_of(root, b, arch) {
        lemma_file_name_of_artifact(root, a, arch);
        lemma_file_name_of_artifact(root, b, arch);
        assert(a.platform == b.platform);
        lemma_lib_file_tells(a, b, arch);
        match target {
            Target::Web => {
                assert(a.module == module_list()[i / 2] && b.module == module_list()[j / 2]);
                assert(a.profile == web_profiles()[i % 2] && b.profile == web_profiles()[j % 2]);
                assert(i / 2 == j / 2);
                assert(i % 2 == j % 2);
                assert(false);
            },
            Target::Desktop => {
                let nb = backend_list(host).len() as int;
                vstd::arithmetic::div_mod::lemma_fundamental_div_mod(i, nb);
                vstd::arithmetic::div_mod::lemma_fundamental_div_mod(j, nb);
                vstd::arithmetic::div_mod::lemma_mod_bound(i, nb);
                vstd::arithmetic::div_mod::lemma_mod_bound(j, nb);
                let ia = i / nb;
                let ja = j / nb;
                assert(0 <= ia < 9 && 0 <= ja < 9) by (nonlinear_arith)
                    requires
                        i == nb * ia + i % nb,
                        j == nb * ja + j % nb,
                        0 <= i % nb < nb,
                        0 <= j % nb < nb,
                        0 <= i < 9 * nb,
                        0 <= j < 9 * nb,
                ;
                assert(a.module == module_list()[ia] && b.module == module_list()[ja]);
                assert(ia == ja);
                assert(a.backend == backend_list(host)[i % nb]);
                assert(b.backend == backend_list(host)[j % nb]);
                if host != Platform::Wasm {
                    lemma_backend_names_differ(host, i % nb, j % nb);
                }
                assert(i % nb == j % nb);
                assert(false);
            },
        }
    }
}

} // verus!
