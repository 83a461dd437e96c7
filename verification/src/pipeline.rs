//! The pipeline driver: the fixed order of the stages for each target, the rule that
//! the first failure ends the run, and the commands of the stages that compile and
//! link the project.
use vstd::prelude::*;
use vstd::string::*;
use crate::error::CustomError;
use crate::paths::{extension, extension_of, file_stem, file_stem_of, join, join_of};
use crate::sokol::{Profile, Target};
use crate::staleness::{is_stale, stale};
use crate::text::{push_owned, push_string, strs};

verus! {

/// One stage of the pipeline.
#[derive(Debug, Clone, Copy, PartialEq, Eq, Structural)]
pub enum Stage {
    /// The compiler of the host language is looked for.
    CheckDependencies,
    /// The project's own build scripts run.
    RunUtils,
    /// The manifest is brought in line with the systems directory.
    SyncManifest,
    /// The texture atlas is packed.
    PackAtlas,
    /// The font metadata is written.
    FontMetadata,
    /// The shaders are compiled.
    CompileShaders,
    /// The native libraries are built.
    CompileNative,
    /// The project is compiled.
    CompileProject,
    /// The assets are copied beside the binary.
    CopyAssets,
    /// The runtime files of the web build are copied.
    CopyRuntime,
    /// The web build is linked.
    Link,
}

/// The stages of a build for a target, in order: the resources are prepared, the
/// native libraries and the project are compiled, and the result is completed by
/// copying the assets, for the web also by copying the runtime and linking.
pub open spec fn stages_of(target: Target) -> Seq<Stage> {
    match target {
        Target::Desktop => seq![
            Stage::CheckDependencies,
            Stage::RunUtils,
            Stage::SyncManifest,
            Stage::PackAtlas,
            Stage::FontMetadata,
            Stage::CompileShaders,
            Stage::CompileNative,
            Stage::CompileProject,
            Stage::CopyAssets,
        ],
        Target::Web => seq![
            Stage::CheckDependencies,
            Stage::RunUtils,
            Stage::SyncManifest,
            Stage::PackAtlas,
            Stage::FontMetadata,
            Stage::CompileShaders,
            Stage::CompileNative,
            Stage::CompileProject,
            Stage::CopyRuntime,
            Stage::CopyAssets,
            Stage::Link,
        ],
    }
}

/// The stages of a build for a target, in order.
pub fn stages(target: Target) -> (list: Vec<Stage>)
    ensures
        list@ == stages_of(target),
{
    let mut list: Vec<Stage> = Vec::new();
    list.push(Stage::CheckDependencies);
    list.push(Stage::RunUtils);
    list.push(Stage::SyncManifest);
    list.push(Stage::PackAtlas);
    list.push(Stage::FontMetadata);
    list.push(Stage::CompileShaders);
    list.push(Stage::CompileNative);
    list.push(Stage::CompileProject);
    match target {
        Target::Desktop => {
            list.push(Stage::CopyAssets);
        },
        Target::Web => {
            list.push(Stage::CopyRuntime);
            list.push(Stage::CopyAssets);
            list.push(Stage::Link);
        },
    }
    assert(list@ =~= stages_of(target));
    list
}

/// Where a run of the pipeline stands.
#[derive(Debug)]
pub enum PipelineState {
    /// The stage with the given number is due.
    Running(usize),
    /// Every stage succeeded.
    Finished,
    /// A stage failed; the run is over.
    Failed(CustomError),
}

/// What the driver does next.
#[derive(Debug, Clone, Copy, PartialEq, Eq, Structural)]
pub enum DriverAction {
    /// Execute the stage.
    Execute(Stage),
    /// Report success.
    ReportSuccess,
    /// Report the failure and end with a failure status.
    ReportFailure,
}

/// The state at the start of a run.
pub fn start(target: Target) -> (state: PipelineState)
    ensures
        state == PipelineState::Running(0),
{
    PipelineState::Running(0)
}

/// What the driver does in a state: it executes the due stage, or reports how the
/// run ended.
pub fn action_for(target: Target, state: &PipelineState) -> (action: DriverAction)
    ensures
        action == match *state {
            PipelineState::Running(i) => if i < stages_of(target).len() {
                DriverAction::Execute(stages_of(target)[i as int])
            } else {
                DriverAction::ReportSuccess
            },
            PipelineState::Finished => DriverAction::ReportSuccess,
            PipelineState::Failed(_) => DriverAction::ReportFailure,
        },
{
    match state {
        PipelineState::Running(i) => {
            let list = stages(target);
            if *i < list.len() {
                DriverAction::Execute(list[*i])
            } else {
                DriverAction::ReportSuccess
            }
        },
        PipelineState::Finished => DriverAction::ReportSuccess,
        PipelineState::Failed(_) => DriverAction::ReportFailure,
    }
}

/// The state after the due stage ended with the given outcome: the first failure ends
/// the run with that error, a success makes the next stage due, and the success of
/// the last stage finishes the run. A run that is over stays as it is.
pub fn advance(target: Target, state: PipelineState, outcome: Result<(), CustomError>) -> (next:
    PipelineState)
    ensures
        next == match state {
            PipelineState::Running(i) => match outcome {
                Err(e) => PipelineState::Failed(e),
                Ok(_) => if i + 1 < stages_of(target).len() {
                    PipelineState::Running((i + 1) as usize)
                } else {
                    PipelineState::Finished
                },
            },
            PipelineState::Finished => PipelineState::Finished,
            PipelineState::Failed(e) => PipelineState::Failed(e),
        },
{
    match state {
        PipelineState::Running(i) => match outcome {
            Err(e) => PipelineState::Failed(e),
            Ok(_) => {
                let n = stages(target).len();
                if i < n && i + 1 < n {
                    PipelineState::Running(i + 1)
                } else {
                    PipelineState::Finished
                }
            },
        },
        PipelineState::Finished => PipelineState::Finished,
        PipelineState::Failed(e) => PipelineState::Failed(e),
    }
}

/// The state of a run after the given outcomes of its stages, from its start.
pub open spec fn state_after(target: Target, outcomes: Seq<bool>) -> int
    decreases outcomes.len(),
{
    if outcomes.len() == 0 {
        0
    } else {
        let before = state_after(target, outcomes.drop_last());
        if before < 0 || !outcomes.last() {
            -1
        } else {
            before + 1
        }
    }
}

/// No stage is reached unless every stage before it succeeded.
pub proof fn lemma_fail_fast(target: Target, outcomes: Seq<bool>, k: int)
    requires
        0 <= k < outcomes.len(),
        !outcomes[k],
    ensures
        state_after(target, outcomes) == -1,
    decreases outcomes.len(),
{
    if k < outcomes.len() - 1 {
        lemma_fail_fast(target, outcomes.drop_last(), k);
    }
}

/// The directory that receives the build of a target.
pub open spec fn build_dir_of(target: Target) -> Seq<char> {
    match target {
        Target::Desktop => "build/desktop"@,
        Target::Web => "build/web"@,
    }
}

/// The file name of what the compiler of the project writes for a target.
pub open spec fn binary_name_of(target: Target, host_windows: bool) -> Seq<char> {
    match target {
        Target::Desktop => if host_windows {
            "game_desktop.exe"@
        } else {
            "game_desktop.bin"@
        },
        Target::Web => "game.wasm.o"@,
    }
}

/// Where the compiler of the project writes its output for a target.
pub fn binary_path(target: Target, host_windows: bool) -> (path: String)
    ensures
        path@ == join_of(build_dir_of(target), binary_name_of(target, host_windows)),
{
    match target {
        Target::Desktop => if host_windows {
            join("build/desktop", "game_desktop.exe")
        } else {
            join("build/desktop", "game_desktop.bin")
        },
        Target::Web => join("build/web", "game.wasm.o"),
    }
}

/// The arguments of the compiler of the project.
pub open spec fn odin_args_of(target: Target, profile: Profile, out_path: Seq<char>) -> Seq<
    Seq<char>,
> {
    seq!["build"@, "source"@, "-vet"@, "-strict-style"@] + (match target {
        Target::Web => seq!["-target:js_wasm32"@, "-build-mode:obj"@],
        Target::Desktop => Seq::empty(),
    }) + (match profile {
        Profile::Debug => seq!["-debug"@],
        Profile::Release => seq!["-o:speed"@, "-no-bounds-check"@],
    }) + seq!["-out:"@ + out_path]
}

/// Builds the arguments of the compiler of the project.
pub fn odin_args(target: Target, profile: Profile, out_path: &str) -> (args: Vec<String>)
    ensures
        strs(args@) == odin_args_of(target, profile, out_path@),
{
    let mut args: Vec<String> = Vec::new();
    assert(strs(args@) =~= Seq::<Seq<char>>::empty());
    push_string(&mut args, "build");
    push_string(&mut args, "source");
    push_string(&mut args, "-vet");
    push_string(&mut args, "-strict-style");
    match target {
        Target::Web => {
            push_string(&mut args, "-target:js_wasm32");
            push_string(&mut args, "-build-mode:obj");
        },
        Target::Desktop => {},
    }
    match profile {
        Profile::Debug => {
            push_string(&mut args, "-debug");
        },
        Profile::Release => {
            push_string(&mut args, "-o:speed");
            push_string(&mut args, "-no-bounds-check");
        },
    }
    push_owned(&mut args, String::from_str("-out:").concat(out_path));
    assert(strs(args@) =~= odin_args_of(target, profile, out_path@));
    args
}

/// The libraries of the framework that every web build links.
pub open spec fn framework_libraries() -> Seq<Seq<char>> {
    seq![
        "source/libs/sokol/app/sokol_app_wasm_gl_release.a"@,
        "source/libs/sokol/glue/sokol_glue_wasm_gl_release.a"@,
        "source/libs/sokol/gfx/sokol_gfx_wasm_gl_release.a"@,
        "source/libs/sokol/shape/sokol_shape_wasm_gl_release.a"@,
        "source/libs/sokol/log/sokol_log_wasm_gl_release.a"@,
        "source/libs/sokol/gl/sokol_gl_wasm_gl_release.a"@,
        "source/libs/stb/lib/stb_image_wasm.o"@,
        "source/libs/stb/lib/stb_image_write_wasm.o"@,
        "source/libs/stb/lib/stb_rect_pack_wasm.o"@,
        "source/libs/stb/lib/stb_truetype_wasm.o"@,
    ]
}

/// The libraries of the framework that every web build links.
pub fn get_c_libraries() -> (libs: Vec<String>)
    ensures
        strs(libs@) == framework_libraries(),
{
    let mut libs: Vec<String> = Vec::new();
    assert(strs(libs@) =~= Seq::<Seq<char>>::empty());
    push_string(&mut libs, "source/libs/sokol/app/sokol_app_wasm_gl_release.a");
    push_string(&mut libs, "source/libs/sokol/glue/sokol_glue_wasm_gl_release.a");
    push_string(&mut libs, "source/libs/sokol/gfx/sokol_gfx_wasm_gl_release.a");
    push_string(&mut libs, "source/libs/sokol/shape/sokol_shape_wasm_gl_release.a");
    push_string(&mut libs, "source/libs/sokol/log/sokol_log_wasm_gl_release.a");
    push_string(&mut libs, "source/libs/sokol/gl/sokol_gl_wasm_gl_release.a");
    push_string(&mut libs, "source/libs/stb/lib/stb_image_wasm.o");
    push_string(&mut libs, "source/libs/stb/lib/stb_image_write_wasm.o");
    push_string(&mut libs, "source/libs/stb/lib/stb_rect_pack_wasm.o");
    push_string(&mut libs, "source/libs/stb/lib/stb_truetype_wasm.o");
    assert(strs(libs@) =~= framework_libraries());
    libs
}

/// The detail of the error for a library of the manifest that does not exist.
pub open spec fn missing_library_message(lib: Seq<char>) -> Seq<char> {
    "External library not found: "@ + lib
}

/// Library `k` is the first library of the manifest that does not exist.
pub open spec fn first_missing(exists: Seq<bool>, k: int) -> bool {
    &&& 0 <= k < exists.len()
    &&& !exists[k]
    &&& forall|j: int| 0 <= j < k ==> exists[j]
}

/// What the web build links, in order: the compiled project, the libraries of the
/// framework, and the libraries of the manifest. `exists[i]` says whether library
/// `i` of the manifest exists; the first one that does not makes the build fail.
pub fn link_libraries(object_file: &str, web_libs: &Vec<String>, exists: &Vec<bool>) -> (r: Result<
    Vec<String>,
    CustomError,
>)
    requires
        web_libs@.len() == exists@.len(),
    ensures
        r is Ok <==> forall|j: int| 0 <= j < exists@.len() ==> exists@[j],
        r matches Ok(libs) ==> strs(libs@) == seq![object_file@] + framework_libraries() + strs(
            web_libs@,
        ),
        r matches Err(e) ==> e is ValidationError && exists|k: int| #[trigger]
            first_missing(exists@, k) && e.detail() == missing_library_message(web_libs@[k]@),
{
    let mut libs: Vec<String> = Vec::new();
    assert(strs(libs@) =~= Seq::<Seq<char>>::empty());
    push_string(&mut libs, object_file);
    let fixed = get_c_libraries();
    let mut i: usize = 0;
    assert(strs(fixed@).take(0) =~= Seq::<Seq<char>>::empty());
    while i < fixed.len()
        invariant
            i <= fixed@.len(),
            strs(fixed@) == framework_libraries(),
            strs(libs@) == seq![object_file@] + strs(fixed@).take(i as int),
        decreases fixed.len() - i,
    {
        assert(strs(fixed@)[i as int] == fixed@[i as int]@);
        push_string(&mut libs, fixed[i].as_str());
        assert(strs(fixed@).take(i + 1) =~= strs(fixed@).take(i as int).push(fixed@[i as int]@));
        i = i + 1;
    }
    assert(strs(fixed@).take(fixed@.len() as int) =~= strs(fixed@));
    let ghost head = seq![object_file@] + framework_libraries();
    let mut k: usize = 0;
    assert(strs(web_libs@).take(0) =~= Seq::<Seq<char>>::empty());
    while k < web_libs.len()
        invariant
            k <= web_libs@.len(),
            web_libs@.len() == exists@.len(),
            forall|j: int| 0 <= j < k ==> exists@[j],
            strs(libs@) == head + strs(web_libs@).take(k as int),
        decreases web_libs.len() - k,
    {
        if !exists[k] {
            assert(first_missing(exists@, k as int));
            return Err(
                CustomError::ValidationError(
                    String::from_str("External library not found: ").concat(web_libs[k].as_str()),
                ),
            );
        }
        assert(strs(web_libs@)[k as int] == web_libs@[k as int]@);
        push_string(&mut libs, web_libs[k].as_str());
        assert(strs(web_libs@).take(k + 1) =~= strs(web_libs@).take(k as int).push(
            web_libs@[k as int]@,
        ));
        k = k + 1;
    }
    assert(strs(web_libs@).take(web_libs@.len() as int) =~= strs(web_libs@));
    Ok(libs)
}

/// The strings with one space between every two of them.
pub open spec fn spaced_upto(parts: Seq<Seq<char>>, n: nat) -> Seq<char>
    decreases n,
{
    if n == 0 {
        Seq::empty()
    } else if n == 1 {
        parts[0]
    } else {
        spaced_upto(parts, (n - 1) as nat) + " "@ + parts[n - 1]
    }
}

/// Joins strings with one space between every two of them.
pub fn join_spaced(parts: &Vec<String>) -> (out: String)
    ensures
        out@ == spaced_upto(strs(parts@), parts@.len()),
{
    let mut out = String::new();
    let mut i: usize = 0;
    while i < parts.len()
        invariant
            i <= parts@.len(),
            out@ == spaced_upto(strs(parts@), i as nat),
        decreases parts.len() - i,
    {
        assert(strs(parts@)[i as int] == parts@[i as int]@);
        if i > 0 {
            out = out.concat(" ");
        }
        out = out.concat(parts[i].as_str());
        proof {
            if i == 0 {
                assert(out@ =~= strs(parts@)[0]);
            }
        }
        i = i + 1;
    }
    out
}

/// The flags of the web linker.
pub open spec fn emscripten_flags() -> Seq<char> {
    "-sWASM_BIGINT -sWARN_ON_UNDEFINED_SYMBOLS=0 -sALLOW_MEMORY_GROWTH -sINITIAL_MEMORY=67108864 -sMAX_WEBGL_VERSION=2 -sASSERTIONS --shell-file source/core/platform/web/index.html --preload-file assets/images/atlas.png --preload-file assets/fonts"@
}

/// The command line of the web linker.
pub open spec fn link_command_of(out_html: Seq<char>, libs: Seq<Seq<char>>) -> Seq<char> {
    "emcc -o "@ + out_html + " "@ + spaced_upto(libs, libs.len()) + " "@ + emscripten_flags() + " -g"@
}

/// Builds the command line of the web linker.
pub fn link_command(out_html: &str, libs: &Vec<String>) -> (cmd: String)
    ensures
        cmd@ == link_command_of(out_html@, strs(libs@)),
{
    let joined = join_spaced(libs);
    String::from_str("emcc -o ").concat(out_html).concat(" ").concat(joined.as_str()).concat(
        " ",
    ).concat(
        "-sWASM_BIGINT -sWARN_ON_UNDEFINED_SYMBOLS=0 -sALLOW_MEMORY_GROWTH -sINITIAL_MEMORY=67108864 -sMAX_WEBGL_VERSION=2 -sASSERTIONS --shell-file source/core/platform/web/index.html --preload-file assets/images/atlas.png --preload-file assets/fonts",
    ).concat(" -g")
}

/// The shell command that runs `cmd` with the environment of the web toolchain.
pub open spec fn emsdk_command_of(cmd: Seq<char>, emsdk: Seq<char>, host_windows: bool) -> Seq<
    char,
> {
    if host_windows {
        "call \""@ + emsdk + "\\emsdk_env.bat\" >nul && "@ + cmd
    } else {
        "source \""@ + emsdk + "/emsdk_env.sh\" && "@ + cmd
    }
}

/// Builds the shell invocation that runs `cmd` with the environment of the web
/// toolchain: the shell, its flag, and the command for it.
pub fn emsdk_invocation(cmd: &str, emsdk: &str, host_windows: bool) -> (r: (
    &'static str,
    &'static str,
    String,
))
    ensures
        r.0@ == (if host_windows {
            "cmd"@
        } else {
            "bash"@
        }),
        r.1@ == (if host_windows {
            "/C"@
        } else {
            "-c"@
        }),
        r.2@ == emsdk_command_of(cmd@, emsdk@, host_windows),
{
    if host_windows {
        (
            "cmd",
            "/C",
            String::from_str("call \"").concat(emsdk).concat("\\emsdk_env.bat\" >nul && ").concat(
                cmd,
            ),
        )
    } else {
        (
            "bash",
            "-c",
            String::from_str("source \"").concat(emsdk).concat("/emsdk_env.sh\" && ").concat(cmd),
        )
    }
}

/// The places under the home directory where the web toolchain is looked for, in order.
pub open spec fn emsdk_candidates_of(home: Seq<char>) -> Seq<Seq<char>> {
    seq![
        join_of(home, "repos/emsdk"@),
        join_of(home, "emsdk"@),
        join_of(home, "tools/emsdk"@),
        join_of(home, ".emsdk"@),
    ]
}

/// The places under the home directory where the web toolchain is looked for, in order.
pub fn emsdk_candidates(home: &str) -> (list: Vec<String>)
    ensures
        strs(list@) == emsdk_candidates_of(home@),
{
    let mut list: Vec<String> = Vec::new();
    assert(strs(list@) =~= Seq::<Seq<char>>::empty());
    push_owned(&mut list, join(home, "repos/emsdk"));
    push_owned(&mut list, join(home, "emsdk"));
    push_owned(&mut list, join(home, "tools/emsdk"));
    push_owned(&mut list, join(home, ".emsdk"));
    assert(strs(list@) =~= emsdk_candidates_of(home@));
    list
}

/// The position of the first candidate that succeeded: candidates are tried in
/// order and the first success wins.
pub fn first_success(succeeded: &Vec<bool>) -> (r: Option<usize>)
    ensures
        r is None <==> forall|i: int| 0 <= i < succeeded@.len() ==> !succeeded@[i],
        r matches Some(k) ==> k < succeeded@.len() && succeeded@[k as int] && forall|i: int|
            0 <= i < k ==> !succeeded@[i],
{
    let mut i: usize = 0;
    while i < succeeded.len()
        invariant
            i <= succeeded@.len(),
            forall|k: int| 0 <= k < i ==> !succeeded@[k],
        decreases succeeded.len() - i,
    {
        if succeeded[i] {
            return Some(i);
        }
        i = i + 1;
    }
    None
}

/// Candidate `k` is the first that holds what is looked for.
pub open spec fn first_found(found: Seq<bool>, k: int) -> bool {
    &&& 0 <= k < found.len()
    &&& found[k]
    &&& forall|i: int| 0 <= i < k ==> !found[i]
}

/// The detail of the error for a web toolchain that is found nowhere.
pub open spec fn emsdk_missing_message() -> Seq<char> {
    "Could not find Emscripten SDK.\nPlease install it (https://emscripten.org/docs/getting_started/downloads.html)\nand set the 'EMSDK' environment variable to its installation folder"@
}

/// Chooses the directory of the web toolchain: the one the environment names if it
/// exists, else the first candidate under the home directory that holds the
/// toolchain's environment script. `found[i]` says whether candidate `i` holds it.
pub fn choose_emsdk(
    named: Option<&str>,
    named_exists: bool,
    candidates: &Vec<String>,
    found: &Vec<bool>,
) -> (r: Result<String, CustomError>)
    requires
        candidates@.len() == found@.len(),
    ensures
        named matches Some(p) ==> (named_exists ==> (r matches Ok(dir) && dir@ == p@)),
        !(named is Some && named_exists) ==> (r is Ok <==> exists|i: int|
            0 <= i < found@.len() && found@[i]),
        !(named is Some && named_exists) ==> (r matches Ok(dir) ==> exists|k: int| #[trigger]
            first_found(found@, k) && dir@ == candidates@[k]@),
        r matches Err(e) ==> e is BuildError && e.detail() == emsdk_missing_message(),
{
    match named {
        Some(p) => {
            if named_exists {
                return Ok(String::from_str(p));
            }
        },
        None => {},
    }
    match first_success(found) {
        Some(k) => {
            assert(first_found(found@, k as int));
            Ok(candidates[k].clone())
        },
        None => Err(
            CustomError::BuildError(
                String::from_str(
                    "Could not find Emscripten SDK.\nPlease install it (https://emscripten.org/docs/getting_started/downloads.html)\nand set the 'EMSDK' environment variable to its installation folder",
                ),
            ),
        ),
    }
}

/// Decides whether a file is copied over its copy in the build directory: the copy
/// is missing, or the file is strictly newer.
pub fn should_copy(source_mtime: u64, dest_mtime: Option<u64>) -> (r: bool)
    ensures
        r == stale(source_mtime, dest_mtime),
{
    is_stale(source_mtime, dest_mtime)
}

/// The kind of a build script of the project.
#[derive(Debug, Clone, Copy, PartialEq, Eq, Structural)]
pub enum ScriptKind {
    Python,
    Rust,
}

/// The kind of a build script, by its extension; `None` for a file that is no script.
pub fn script_kind(path: &str) -> (kind: Option<ScriptKind>)
    ensures
        kind == if extension_of(path@) == Some("py"@) {
            Some(ScriptKind::Python)
        } else if extension_of(path@) == Some("rs"@) {
            Some(ScriptKind::Rust)
        } else {
            None
        },
{
    match extension(path) {
        None => None,
        Some(e) => {
            if e == String::from_str("py") {
                Some(ScriptKind::Python)
            } else if e == String::from_str("rs") {
                Some(ScriptKind::Rust)
            } else {
                None
            }
        },
    }
}

/// The file name of the program that a Rust build script is compiled into.
pub fn script_binary_name(path: &str, host_windows: bool) -> (name: String)
    ensures
        name@ == file_stem_of(path@) + (if host_windows {
            ".exe"@
        } else {
            ".bin"@
        }),
{
    let stem = file_stem(path);
    if host_windows {
        stem.concat(".exe")
    } else {
        stem.concat(".bin")
    }
}

/// The line that reports a failed command to the user: the command in brackets,
/// the message of the error, and a full stop.
pub open spec fn failure_line_of(context: Seq<char>, error: CustomError) -> Seq<char> {
    "[ERROR] ("@ + context + "): "@ + (error.heading() + error.detail()) + "."@
}

/// Builds the line that reports a failed command to the user.
pub fn failure_line(context: &str, error: &CustomError) -> (line: String)
    ensures
        line@ == failure_line_of(context@, *error),
{
    let message = error.message();
    String::from_str("[ERROR] (").concat(context).concat("): ").concat(message.as_str()).concat(
        ".",
    )
}

/// The exit status of the tool for the end of a run: zero when every stage
/// succeeded, one when a stage failed.
pub fn exit_status(state: &PipelineState) -> (code: i32)
    ensures
        code == if *state is Failed {
            1i32
        } else {
            0i32
        },
{
    match state {
        PipelineState::Failed(_) => 1,
        _ => 0,
    }
}

} // verus!
