//! The shader compilation stage: which files are shader sources, where their
//! compiled form goes, which of them must be compiled again, and how the shader
//! cross-compiler is called.
use vstd::prelude::*;
use vstd::string::*;
use crate::error::CustomError;
use crate::paths::{
    extension, extension_of, file_name, file_name_of, join, join_of, with_extension,
    with_extension_of,
};
use crate::staleness::{is_stale, stale};
use crate::text::{push_string, strs};

verus! {

/// What counts as a shader source: a file with one of the extensions `glsl`,
/// `vert` and `frag`.
pub open spec fn shader_source(path: Seq<char>, is_dir: bool) -> bool {
    &&& !is_dir
    &&& (extension_of(path) == Some("glsl"@) || extension_of(path) == Some("vert"@)
        || extension_of(path) == Some("frag"@))
}

/// Tests whether a file counts as a shader source.
pub fn is_shader_source(path: &str, is_dir: bool) -> (r: bool)
    ensures
        r == shader_source(path@, is_dir),
{
    if is_dir {
        return false;
    }
    match extension(path) {
        None => false,
        Some(e) => e == String::from_str("glsl") || e == String::from_str("vert") || e
            == String::from_str("frag"),
    }
}

/// Where the compiled form of a shader goes: beside the source, under the same stem,
/// with the extension of the host language.
pub open spec fn shader_output_of(source: Seq<char>) -> Seq<char> {
    with_extension_of(source, "odin"@)
}

/// Where the compiled form of a shader goes.
pub fn shader_output(source: &str) -> (out: String)
    ensures
        out@ == shader_output_of(source@),
{
    with_extension(source, "odin")
}

/// Where a file is staged in the cache directory: directly in it, under its own
/// file name.
pub open spec fn cache_path_of(cache_dir: Seq<char>, file: Seq<char>) -> Seq<char> {
    join_of(cache_dir, file_name_of(file))
}

/// Where a file is staged in the cache directory.
pub fn cache_path(cache_dir: &str, file: &str) -> (out: String)
    ensures
        out@ == cache_path_of(cache_dir@, file@),
{
    let name = file_name(file);
    join(cache_dir, name.as_str())
}

/// The target dialects of the cross-compiler: without the native shading language
/// of macOS on a Windows host, with it elsewhere.
pub open spec fn dialects_of(host_windows: bool) -> Seq<char> {
    if host_windows {
        "glsl300es:hlsl4:glsl430"@
    } else {
        "metal_macos:glsl300es:hlsl4:glsl430"@
    }
}

/// The target dialects of the cross-compiler on the host.
pub fn dialects(host_windows: bool) -> (s: &'static str)
    ensures
        s@ == dialects_of(host_windows),
{
    if host_windows {
        "glsl300es:hlsl4:glsl430"
    } else {
        "metal_macos:glsl300es:hlsl4:glsl430"
    }
}

/// The arguments of one call of the cross-compiler.
pub open spec fn shdc_args_of(source: Seq<char>, output: Seq<char>, host_windows: bool) -> Seq<
    Seq<char>,
> {
    seq![
        "-i"@,
        source,
        "-o"@,
        output,
        "-l"@,
        dialects_of(host_windows),
        "-f"@,
        "sokol_odin"@,
    ]
}

/// Builds the arguments of one call of the cross-compiler.
pub fn shdc_args(source: &str, output: &str, host_windows: bool) -> (args: Vec<String>)
    ensures
        strs(args@) == shdc_args_of(source@, output@, host_windows),
{
    let mut args: Vec<String> = Vec::new();
    assert(strs(args@) =~= Seq::<Seq<char>>::empty());
    push_string(&mut args, "-i");
    push_string(&mut args, source);
    push_string(&mut args, "-o");
    push_string(&mut args, output);
    push_string(&mut args, "-l");
    push_string(&mut args, dialects(host_windows));
    push_string(&mut args, "-f");
    push_string(&mut args, "sokol_odin");
    assert(strs(args@) =~= shdc_args_of(source@, output@, host_windows));
    args
}

/// One file found for the shader stage: its path, whether it is a directory, its
/// last-modified time, and that of its compiled form if that exists.
#[derive(Debug)]
pub struct ShaderFile {
    pub path: String,
    pub is_dir: bool,
    pub mtime: u64,
    pub output_mtime: Option<u64>,
}

impl ShaderFile {
    /// The file is a shader source whose compiled form is missing or older than it.
    pub open spec fn needs_compile(&self) -> bool {
        shader_source(self.path@, self.is_dir) && stale(self.mtime, self.output_mtime)
    }

    /// Tests whether the file must be compiled.
    pub fn must_compile(&self) -> (r: bool)
        ensures
            r == self.needs_compile(),
    {
        is_shader_source(self.path.as_str(), self.is_dir) && is_stale(
            self.mtime,
            self.output_mtime,
        )
    }
}

/// One call of the cross-compiler: the source, the output, and the arguments.
#[derive(Debug)]
pub struct ShaderJob {
    pub source: String,
    pub output: String,
    pub args: Vec<String>,
}

impl ShaderJob {
    /// The job compiles `source` into its output with the arguments for the host.
    pub open spec fn compiles(&self, source: Seq<char>, host_windows: bool) -> bool {
        &&& self.source@ == source
        &&& self.output@ == shader_output_of(source)
        &&& strs(self.args@) == shdc_args_of(source, shader_output_of(source), host_windows)
    }
}

/// The positions among the first `n` files of those that must be compiled.
pub open spec fn stale_shaders(files: Seq<ShaderFile>, n: nat) -> Seq<int>
    decreases n,
{
    if n == 0 {
        Seq::empty()
    } else if files[n - 1].needs_compile() {
        stale_shaders(files, (n - 1) as nat).push(n - 1)
    } else {
        stale_shaders(files, (n - 1) as nat)
    }
}

/// Plans the shader stage: one job for every shader source whose compiled form is
/// missing or older than it, in the order of the files. The core shader is the
/// first file when it is given like the others.
pub fn plan_shaders(files: &Vec<ShaderFile>, host_windows: bool) -> (jobs: Vec<ShaderJob>)
    ensures
        jobs@.len() == stale_shaders(files@, files@.len()).len(),
        forall|k: int|
            0 <= k < jobs@.len() ==> (#[trigger] jobs@[k]).compiles(
                files@[stale_shaders(files@, files@.len())[k]].path@,
                host_windows,
            ),
{
    let mut jobs: Vec<ShaderJob> = Vec::new();
    let mut i: usize = 0;
    while i < files.len()
        invariant
            i <= files@.len(),
            jobs@.len() == stale_shaders(files@, i as nat).len(),
            forall|k: int|
                0 <= k < jobs@.len() ==> (#[trigger] jobs@[k]).compiles(
                    files@[stale_shaders(files@, i as nat)[k]].path@,
                    host_windows,
                ),
        decreases files.len() - i,
    {
        if files[i].must_compile() {
            let source = files[i].path.clone();
            let output = shader_output(source.as_str());
            let args = shdc_args(source.as_str(), output.as_str(), host_windows);
            jobs.push(ShaderJob { source, output, args });
        }
        i = i + 1;
    }
    jobs
}

/// A file is compiled exactly when it is a shader source and stale.
pub proof fn lemma_stale_shaders_members(files: Seq<ShaderFile>, n: nat, i: int)
    requires
        n <= files.len(),
    ensures
        stale_shaders(files, n).contains(i) <==> 0 <= i < n && files[i].needs_compile(),
    decreases n,
{
    if n > 0 {
        let m = (n - 1) as nat;
        lemma_stale_shaders_members(files, m, i);
        let prev = stale_shaders(files, m);
        if files[n - 1].needs_compile() {
            let cur = prev.push(n - 1);
            assert(cur[cur.len() - 1] == n - 1);
            if prev.contains(i) {
                let k = choose|k: int| 0 <= k < prev.len() && prev[k] == i;
                assert(cur[k] == i);
            }
            if cur.contains(i) {
                let k = choose|k: int| 0 <= k < cur.len() && cur[k] == i;
                if k < prev.len() {
                    assert(prev[k] == i);
                }
            }
        }
    }
}

/// The file name of the cross-compiler on an operating system.
pub fn get_executable_name(os: &str) -> (name: &'static str)
    ensures
        name@ == if os@ == "windows"@ {
            "sokol-shdc.exe"@
        } else {
            "sokol-shdc"@
        },
{
    if String::from_str(os) == String::from_str("windows") {
        "sokol-shdc.exe"
    } else {
        "sokol-shdc"
    }
}

/// Where the cross-compiler is published.
pub open spec fn shdc_base_url() -> Seq<char> {
    "https://raw.githubusercontent.com/floooh/sokol-tools-bin/master/bin"@
}

/// The part of the download address that depends on the platform, or `None` for a
/// platform without a published cross-compiler.
pub open spec fn shdc_url_tail(os: Seq<char>, arch: Seq<char>) -> Option<Seq<char>> {
    if os == "windows"@ {
        Some("/win32/sokol-shdc.exe"@)
    } else if os == "linux"@ {
        Some("/linux/sokol-shdc"@)
    } else if os == "macos"@ {
        if arch == "aarch64"@ {
            Some("/osx_arm64/sokol-shdc"@)
        } else {
            Some("/osx/sokol-shdc"@)
        }
    } else {
        None
    }
}

/// The detail of the error for a platform without a published cross-compiler.
pub open spec fn unsupported_platform_message(os: Seq<char>, arch: Seq<char>) -> Seq<char> {
    "Unsupported platform: "@ + os + " "@ + arch
}

/// The address from which the cross-compiler for a platform is downloaded.
pub fn get_shdc_url(os: &str, arch: &str) -> (r: Result<String, CustomError>)
    ensures
        r is Ok <==> shdc_url_tail(os@, arch@) is Some,
        r matches Ok(url) ==> url@ == shdc_base_url() + shdc_url_tail(os@, arch@)->Some_0,
        r matches Err(e) ==> e is ValidationError && e.detail() == unsupported_platform_message(
            os@,
            arch@,
        ),
{
    let base = String::from_str(
        "https://raw.githubusercontent.com/floooh/sokol-tools-bin/master/bin",
    );
    let os_name = String::from_str(os);
    let arch_name = String::from_str(arch);
    if os_name == String::from_str("windows") {
        Ok(base.concat("/win32/sokol-shdc.exe"))
    } else if os_name == String::from_str("linux") {
        Ok(base.concat("/linux/sokol-shdc"))
    } else if os_name == String::from_str("macos") {
        if arch_name == String::from_str("aarch64") {
            Ok(base.concat("/osx_arm64/sokol-shdc"))
        } else {
            Ok(base.concat("/osx/sokol-shdc"))
        }
    } else {
        Err(
            CustomError::ValidationError(
                String::from_str("Unsupported platform: ").concat(os).concat(" ").concat(arch),
            ),
        )
    }
}

/// One file to copy into the cache directory: from where, and to where.
#[derive(Debug)]
pub struct CacheCopy {
    pub from: String,
    pub to: String,
}

/// Plans the staging of a shader: the source and the shared include fragments are
/// each copied into the cache directory under their own file name, the source first.
pub fn cache_copies(cache_dir: &str, source: &str, includes: &Vec<String>) -> (copies: Vec<
    CacheCopy,
>)
    ensures
        copies@.len() == includes@.len() + 1,
        copies@[0].from@ == source@,
        copies@[0].to@ == cache_path_of(cache_dir@, source@),
        forall|i: int|
            0 <= i < includes@.len() ==> (#[trigger] copies@[i + 1]).from@ == includes@[i]@
                && copies@[i + 1].to@ == cache_path_of(cache_dir@, includes@[i]@),
{
    let mut copies: Vec<CacheCopy> = Vec::new();
    copies.push(CacheCopy { from: String::from_str(source), to: cache_path(cache_dir, source) });
    let mut i: usize = 0;
    while i < includes.len()
        invariant
            i <= includes@.len(),
            copies@.len() == i + 1,
            copies@[0].from@ == source@,
            copies@[0].to@ == cache_path_of(cache_dir@, source@),
            forall|k: int|
                0 <= k < i ==> (#[trigger] copies@[k + 1]).from@ == includes@[k]@ && copies@[k
                    + 1].to@ == cache_path_of(cache_dir@, includes@[k]@),
        decreases includes.len() - i,
    {
        let ghost before = copies@;
        copies.push(
            CacheCopy {
                from: includes[i].clone(),
                to: cache_path(cache_dir, includes[i].as_str()),
            },
        );
        proof {
            assert forall|k: int| 0 <= k < i + 1 implies (#[trigger] copies@[k + 1]).from@
                == includes@[k]@ && copies@[k + 1].to@ == cache_path_of(
                cache_dir@,
                includes@[k]@,
            ) by {
                if k < i {
                    assert(copies@[k + 1] == before[k + 1]);
                }
            }
        }
        i = i + 1;
    }
    copies
}

} // verus!
