use bonsai::sokol::{
    archive_command, backends, clean_dirs, compile_command, desktop_tasks, first_failure,
    is_build_artifact, marker_path, matrix_platform, modules, next_phase, plan_matrix, preflight,
    purge_list, step_result, toolchain_for, wasm_tasks, Arch, Backend, BuildStep, BuildTask,
    HostFacts, MatrixPlan, Module, Platform, Profile, Target, TaskPhase, ToolRun, Toolchain,
};

const ROOT: &str = "bonsai/libs/sokol";

fn task(module: Module, backend: Backend, profile: Profile, platform: Platform) -> BuildTask {
    BuildTask { module, backend, profile, platform }
}

fn strings(list: &[&str]) -> Vec<String> {
    list.iter().map(|s| s.to_string()).collect()
}

#[test]
fn there_are_nine_modules_in_fixed_order() {
    let names: Vec<String> = modules().iter().map(|m| m.name()).collect();
    assert_eq!(
        names,
        strings(&[
            "sokol_log",
            "sokol_gfx",
            "sokol_app",
            "sokol_glue",
            "sokol_time",
            "sokol_audio",
            "sokol_debugtext",
            "sokol_shape",
            "sokol_gl",
        ])
    );
    assert_eq!(Module::Debugtext.folder(), "debugtext");
}

#[test]
fn backends_depend_on_the_platform() {
    assert_eq!(backends(Platform::Windows), vec![Backend::D3d11, Backend::GlCore]);
    assert_eq!(backends(Platform::Macos), vec![Backend::Metal, Backend::GlCore]);
    assert_eq!(backends(Platform::Linux), vec![Backend::GlCore]);
    assert_eq!(backends(Platform::Wasm), vec![Backend::Gles3]);
    assert_eq!(Backend::D3d11.define(), "SOKOL_D3D11");
    assert_eq!(Backend::Metal.define(), "SOKOL_METAL");
    assert_eq!(Backend::GlCore.define(), "SOKOL_GLCORE");
    assert_eq!(Backend::Gles3.define(), "SOKOL_GLES3");
    assert_eq!(Backend::GlCore.suffix(), "gl");
}

#[test]
fn desktop_matrix_on_two_backends_has_one_task_for_each_combination() {
    for platform in [Platform::Windows, Platform::Macos] {
        let tasks = desktop_tasks(platform, Profile::Release);
        assert_eq!(tasks.len(), 9 * 2);
        for module in modules() {
            for backend in backends(platform) {
                let wanted = task(module, backend, Profile::Release, platform);
                assert_eq!(tasks.iter().filter(|t| **t == wanted).count(), 1);
            }
        }
        let mut paths: Vec<String> =
            tasks.iter().map(|t| t.artifact_path(ROOT, Arch::X64)).collect();
        paths.sort();
        paths.dedup();
        assert_eq!(paths.len(), 18);
    }
}

#[test]
fn desktop_matrix_goes_module_by_module() {
    let tasks = desktop_tasks(Platform::Windows, Profile::Debug);
    assert_eq!(tasks[0], task(Module::Log, Backend::D3d11, Profile::Debug, Platform::Windows));
    assert_eq!(tasks[1], task(Module::Log, Backend::GlCore, Profile::Debug, Platform::Windows));
    assert_eq!(tasks[2], task(Module::Gfx, Backend::D3d11, Profile::Debug, Platform::Windows));
    assert_eq!(tasks[17], task(Module::Gl, Backend::GlCore, Profile::Debug, Platform::Windows));
    assert_eq!(desktop_tasks(Platform::Linux, Profile::Debug).len(), 9);
}

#[test]
fn web_matrix_builds_every_module_in_both_profiles() {
    let tasks = wasm_tasks();
    assert_eq!(tasks.len(), 18);
    assert_eq!(tasks[0], task(Module::Log, Backend::Gles3, Profile::Debug, Platform::Wasm));
    assert_eq!(tasks[1], task(Module::Log, Backend::Gles3, Profile::Release, Platform::Wasm));
    assert_eq!(tasks[17], task(Module::Gl, Backend::Gles3, Profile::Release, Platform::Wasm));
}

#[test]
fn artifacts_are_named_after_module_platform_architecture_backend_and_profile() {
    let linux = task(Module::App, Backend::GlCore, Profile::Release, Platform::Linux);
    assert_eq!(
        linux.artifact_path(ROOT, Arch::X64),
        "bonsai/libs/sokol/app/sokol_app_linux_x64_gl_release.a"
    );
    assert_eq!(linux.object_path(ROOT, Arch::X64), "bonsai/libs/sokol/sokol_app_gl_release.o");
    assert_eq!(linux.source_path(ROOT), "bonsai/libs/sokol/c/sokol_app.c");
    assert_eq!(linux.output_dir(ROOT), "bonsai/libs/sokol/app");
    let mac = task(Module::Gfx, Backend::Metal, Profile::Debug, Platform::Macos);
    assert_eq!(
        mac.artifact_path(ROOT, Arch::Arm64),
        "bonsai/libs/sokol/gfx/sokol_gfx_macos_arm64_metal_debug.a"
    );
    let windows = task(Module::Gfx, Backend::D3d11, Profile::Debug, Platform::Windows);
    assert_eq!(
        windows.artifact_path(ROOT, Arch::X64),
        "bonsai/libs/sokol/gfx/sokol_gfx_windows_x64_d3d11_debug.lib"
    );
    assert_eq!(
        windows.object_path(ROOT, Arch::X64),
        "bonsai/libs/sokol/sokol_gfx_x64_d3d11_debug.obj"
    );
    let wasm = task(Module::Log, Backend::Gles3, Profile::Debug, Platform::Wasm);
    assert_eq!(wasm.lib_file(Arch::X64), "sokol_log_wasm_gl_debug.a");
    assert_eq!(wasm.artifact_path(ROOT, Arch::X64), "bonsai/libs/sokol/log/sokol_log_wasm_gl_debug.a");
    assert_eq!(wasm.object_path(ROOT, Arch::X64), "bonsai/libs/sokol/sokol_log_debug.o");
}

#[test]
fn marker_is_the_application_library_of_the_default_backend() {
    assert_eq!(
        marker_path(ROOT, Platform::Linux, Arch::X64, Profile::Release),
        "bonsai/libs/sokol/app/sokol_app_linux_x64_gl_release.a"
    );
    assert_eq!(
        marker_path(ROOT, Platform::Windows, Arch::X64, Profile::Debug),
        "bonsai/libs/sokol/app/sokol_app_windows_x64_d3d11_debug.lib"
    );
    assert_eq!(
        marker_path(ROOT, Platform::Macos, Arch::Arm64, Profile::Debug),
        "bonsai/libs/sokol/app/sokol_app_macos_arm64_metal_debug.a"
    );
    assert_eq!(
        marker_path(ROOT, Platform::Wasm, Arch::X64, Profile::Debug),
        "bonsai/libs/sokol/app/sokol_app_wasm_gl_release.a"
    );
}

#[test]
fn linux_commands_use_clang_and_ar() {
    let t = task(Module::App, Backend::GlCore, Profile::Release, Platform::Linux);
    let compile = compile_command(ROOT, t, Arch::X64, false);
    assert_eq!(compile.program, "clang");
    assert_eq!(
        compile.args,
        strings(&[
            "-c",
            "-x",
            "c",
            "-fPIC",
            "-DIMPL",
            "-DSOKOL_GLCORE",
            "-O2",
            "-DNDEBUG",
            "bonsai/libs/sokol/c/sokol_app.c",
            "-o",
            "bonsai/libs/sokol/sokol_app_gl_release.o",
        ])
    );
    assert!(compile.env.is_empty());
    let archive = archive_command(ROOT, t, Arch::X64, false);
    assert_eq!(archive.program, "ar");
    assert_eq!(
        archive.args,
        strings(&[
            "rcs",
            "bonsai/libs/sokol/app/sokol_app_linux_x64_gl_release.a",
            "bonsai/libs/sokol/sokol_app_gl_release.o",
        ])
    );
}

#[test]
fn macos_commands_select_objective_c_and_the_deployment_target() {
    let t = task(Module::Gfx, Backend::Metal, Profile::Debug, Platform::Macos);
    let compile = compile_command(ROOT, t, Arch::Arm64, false);
    assert_eq!(compile.program, "clang");
    assert_eq!(
        compile.args,
        strings(&[
            "-c",
            "-x",
            "objective-c",
            "-arch",
            "arm64",
            "-DIMPL",
            "-DSOKOL_METAL",
            "-g",
            "bonsai/libs/sokol/c/sokol_gfx.c",
            "-o",
            "bonsai/libs/sokol/sokol_gfx_metal_debug.o",
        ])
    );
    assert_eq!(compile.env, vec![("MACOSX_DEPLOYMENT_TARGET".to_string(), "10.13".to_string())]);
    let intel = compile_command(ROOT, t, Arch::X64, false);
    assert_eq!(intel.args[4], "x86_64");
}

#[test]
fn windows_commands_use_the_msvc_tools() {
    let t = task(Module::Gfx, Backend::D3d11, Profile::Debug, Platform::Windows);
    let compile = compile_command(ROOT, t, Arch::X64, true);
    assert_eq!(compile.program, "cl");
    assert_eq!(
        compile.args,
        strings(&[
            "/c",
            "/DIMPL",
            "/DSOKOL_D3D11",
            "/D_DEBUG",
            "/Z7",
            "/Fobonsai/libs/sokol/sokol_gfx_x64_d3d11_debug.obj",
            "bonsai/libs/sokol/c/sokol_gfx.c",
        ])
    );
    let release = compile_command(
        ROOT,
        task(Module::Gfx, Backend::GlCore, Profile::Release, Platform::Windows),
        Arch::X64,
        true,
    );
    assert_eq!(release.args[3], "/O2");
    assert_eq!(release.args[4], "/DNDEBUG");
    let archive = archive_command(ROOT, t, Arch::X64, true);
    assert_eq!(archive.program, "lib");
    assert_eq!(
        archive.args,
        strings(&[
            "/OUT:bonsai/libs/sokol/gfx/sokol_gfx_windows_x64_d3d11_debug.lib",
            "bonsai/libs/sokol/sokol_gfx_x64_d3d11_debug.obj",
        ])
    );
}

#[test]
fn web_commands_use_emscripten_with_the_gles3_define() {
    let t = task(Module::Log, Backend::Gles3, Profile::Release, Platform::Wasm);
    let compile = compile_command(ROOT, t, Arch::X64, false);
    assert_eq!(compile.program, "emcc");
    assert_eq!(
        compile.args,
        strings(&[
            "-c",
            "-DIMPL",
            "-DSOKOL_GLES3",
            "-O2",
            "-DNDEBUG",
            "bonsai/libs/sokol/c/sokol_log.c",
            "-o",
            "bonsai/libs/sokol/sokol_log_release.o",
        ])
    );
    assert_eq!(compile_command(ROOT, t, Arch::X64, true).program, "emcc.bat");
    let archive = archive_command(ROOT, t, Arch::X64, false);
    assert_eq!(archive.program, "emar");
    assert_eq!(archive.args[1], "bonsai/libs/sokol/log/sokol_log_wasm_gl_release.a");
    assert_eq!(archive_command(ROOT, t, Arch::X64, true).program, "emar.bat");
}

#[test]
fn toolchain_follows_the_platform() {
    assert_eq!(toolchain_for(Platform::Windows), Toolchain::Msvc);
    assert_eq!(toolchain_for(Platform::Macos), Toolchain::ClangUnix);
    assert_eq!(toolchain_for(Platform::Linux), Toolchain::ClangUnix);
    assert_eq!(toolchain_for(Platform::Wasm), Toolchain::Emscripten);
    assert_eq!(matrix_platform(Target::Web, Platform::Linux), Platform::Wasm);
    assert_eq!(matrix_platform(Target::Desktop, Platform::Macos), Platform::Macos);
    assert_eq!(Platform::from_os("linux"), Some(Platform::Linux));
    assert_eq!(Platform::from_os("freebsd"), None);
    assert_eq!(Arch::from_name("x86_64"), Arch::X64);
    assert_eq!(Arch::from_name("aarch64"), Arch::Arm64);
    assert_eq!(Profile::from_debug(true), Profile::Debug);
    assert_eq!(Profile::from_debug(false), Profile::Release);
}

#[test]
fn matrix_is_skipped_only_when_the_marker_exists_and_no_clean_is_forced() {
    assert!(matches!(
        plan_matrix(Target::Desktop, Platform::Linux, Profile::Debug, false, true),
        MatrixPlan::Skip
    ));
    for (force_clean, marker_exists) in [(false, false), (true, false), (true, true)] {
        match plan_matrix(Target::Desktop, Platform::Macos, Profile::Debug, force_clean, marker_exists)
        {
            MatrixPlan::Run { clean, tasks } => {
                assert_eq!(clean, force_clean);
                assert_eq!(tasks, desktop_tasks(Platform::Macos, Profile::Debug));
            }
            MatrixPlan::Skip => panic!("the matrix must run"),
        }
    }
    match plan_matrix(Target::Web, Platform::Linux, Profile::Debug, true, true) {
        MatrixPlan::Run { clean, tasks } => {
            assert!(clean);
            assert_eq!(tasks, wasm_tasks());
        }
        MatrixPlan::Skip => panic!("a clean build skips nothing"),
    }
}

#[test]
fn purge_removes_everything_with_an_extension_but_the_sources() {
    assert!(is_build_artifact("sokol_app_linux_x64_gl_release.a"));
    assert!(is_build_artifact("sokol_app_windows_x64_d3d11_debug.lib"));
    assert!(is_build_artifact("sokol_app.o"));
    assert!(!is_build_artifact("app.odin"));
    assert!(!is_build_artifact("README"));
    assert!(!is_build_artifact(".gitignore"));
    let names = strings(&["app.odin", "a.lib", "LICENSE", "b.a", "c.o", "doc.odin"]);
    assert_eq!(purge_list(&names), strings(&["a.lib", "b.a", "c.o"]));
    assert_eq!(purge_list(&Vec::new()), Vec::<String>::new());
}

#[test]
fn clean_build_purges_the_marker() {
    for (platform, arch) in [
        (Platform::Linux, Arch::X64),
        (Platform::Windows, Arch::X64),
        (Platform::Macos, Arch::Arm64),
        (Platform::Wasm, Arch::X64),
    ] {
        let marker = marker_path(ROOT, platform, arch, Profile::Debug);
        let app_dir = &clean_dirs(ROOT)[2];
        assert!(marker.starts_with(&format!("{}/", app_dir)));
        let name = marker[app_dir.len() + 1..].to_string();
        let listing = vec!["app.odin".to_string(), name.clone()];
        assert_eq!(purge_list(&listing), vec![name]);
    }
}

#[test]
fn every_module_directory_is_cleaned() {
    assert_eq!(
        clean_dirs(ROOT),
        strings(&[
            "bonsai/libs/sokol/log",
            "bonsai/libs/sokol/gfx",
            "bonsai/libs/sokol/app",
            "bonsai/libs/sokol/glue",
            "bonsai/libs/sokol/time",
            "bonsai/libs/sokol/audio",
            "bonsai/libs/sokol/debugtext",
            "bonsai/libs/sokol/shape",
            "bonsai/libs/sokol/gl",
        ])
    );
}

fn run(spawn_error: Option<&str>, success: bool) -> ToolRun {
    ToolRun {
        spawn_error: spawn_error.map(|s| s.to_string()),
        success,
        stdout: "out text".to_string(),
        stderr: "err text".to_string(),
    }
}

#[test]
fn step_succeeds_when_the_tool_ran_and_reported_success() {
    let t = task(Module::App, Backend::GlCore, Profile::Debug, Platform::Linux);
    assert!(step_result(t, BuildStep::Compile, &run(None, true)).is_ok());
    assert!(step_result(t, BuildStep::Archive, &run(None, true)).is_ok());
}

#[test]
fn tool_that_cannot_be_started_is_a_process_error() {
    let cases = [
        (Platform::Linux, BuildStep::Compile, "Clang failed: no such file"),
        (Platform::Macos, BuildStep::Archive, "Ar failed: no such file"),
        (Platform::Windows, BuildStep::Compile, "Failed to run cl.exe: no such file"),
        (Platform::Windows, BuildStep::Archive, "Failed to run lib.exe: no such file"),
        (Platform::Wasm, BuildStep::Compile, "Failed to run emcc: no such file"),
        (Platform::Wasm, BuildStep::Archive, "Failed to run emar: no such file"),
    ];
    for (platform, step, detail) in cases {
        let t = task(Module::App, Backend::GlCore, Profile::Debug, platform);
        let err = step_result(t, step, &run(Some("no such file"), true)).unwrap_err();
        assert_eq!(err.message(), format!("Process execution failed: {}", detail));
    }
}

#[test]
fn tool_that_reports_failure_is_a_build_error_with_its_output() {
    let cases = [
        (Platform::Linux, BuildStep::Compile, "Compilation failed for sokol_app:\nerr text"),
        (Platform::Linux, BuildStep::Archive, "Archive failed for sokol_app:\nerr text"),
        (Platform::Macos, BuildStep::Archive, "Archive failed for sokol_app:\nerr text"),
        (Platform::Windows, BuildStep::Compile, "CL compilation failed for sokol_app:\nout text"),
        (Platform::Windows, BuildStep::Archive, "LIB failed for sokol_app:\nout text"),
        (Platform::Wasm, BuildStep::Compile, "WASM compilation failed for app:\nerr text"),
        (Platform::Wasm, BuildStep::Archive, "WASM archiving failed for app:\nerr text"),
    ];
    for (platform, step, detail) in cases {
        let t = task(Module::App, Backend::GlCore, Profile::Debug, platform);
        let err = step_result(t, step, &run(None, false)).unwrap_err();
        assert!(err.is_build());
        assert_eq!(err.message(), format!("Build failed: {}", detail));
    }
}

#[test]
fn first_failed_task_is_reported() {
    assert_eq!(first_failure(&vec![true, true, true]), None);
    assert_eq!(first_failure(&vec![true, false, true, false]), Some(1));
    assert_eq!(first_failure(&vec![false]), Some(0));
    assert_eq!(first_failure(&Vec::new()), None);
}

#[test]
fn task_goes_through_its_phases_in_order() {
    let mut phase = TaskPhase::CreateDir;
    let mut seen = Vec::new();
    while phase != TaskPhase::Done {
        seen.push(phase);
        phase = next_phase(phase, true);
    }
    assert_eq!(
        seen,
        vec![TaskPhase::CreateDir, TaskPhase::Compile, TaskPhase::Archive, TaskPhase::RemoveObject]
    );
    assert_eq!(next_phase(TaskPhase::CreateDir, false), TaskPhase::Failed);
    assert_eq!(next_phase(TaskPhase::Compile, false), TaskPhase::Failed);
    assert_eq!(next_phase(TaskPhase::Archive, false), TaskPhase::Failed);
    assert_eq!(next_phase(TaskPhase::RemoveObject, false), TaskPhase::Done);
    assert_eq!(next_phase(TaskPhase::Failed, true), TaskPhase::Failed);
    assert_eq!(next_phase(TaskPhase::Done, false), TaskPhase::Done);
}

fn host(os: &str, compiler_found: bool, root_exists: bool) -> HostFacts {
    HostFacts { os: os.to_string(), compiler_found, root_exists }
}

#[test]
fn host_is_checked_before_the_matrix_is_planned() {
    assert_eq!(
        preflight(Target::Desktop, &host("linux", false, true), ROOT).unwrap(),
        Platform::Linux
    );
    assert_eq!(preflight(Target::Web, &host("linux", true, false), ROOT).unwrap(), Platform::Wasm);
    let no_emcc = preflight(Target::Web, &host("linux", false, true), ROOT).unwrap_err();
    assert!(matches!(no_emcc, bonsai::error::CustomError::ProcessError(_)));
    assert!(no_emcc
        .message()
        .starts_with("Process execution failed: The 'emcc' command was not found.\n"));
    let no_cl = preflight(Target::Desktop, &host("windows", false, false), ROOT).unwrap_err();
    assert!(matches!(no_cl, bonsai::error::CustomError::ProcessError(_)));
    assert!(no_cl
        .message()
        .starts_with("Process execution failed: The 'cl' command (MSVC compiler) was not found.\n"));
    let no_root = preflight(Target::Desktop, &host("macos", true, false), ROOT).unwrap_err();
    assert_eq!(no_root.message(), "Build failed: Sokol directory not found: bonsai/libs/sokol");
    let no_os = preflight(Target::Desktop, &host("freebsd", true, true), ROOT).unwrap_err();
    assert_eq!(no_os.message(), "Build failed: Unsupported OS: freebsd");
}

#[test]
fn macos_builds_want_a_known_processor() {
    assert_eq!(Arch::for_macos("aarch64").unwrap(), Arch::Arm64);
    assert_eq!(Arch::for_macos("x86_64").unwrap(), Arch::X64);
    let err = Arch::for_macos("riscv64").unwrap_err();
    assert!(err.is_build());
    assert_eq!(err.message(), "Build failed: unsupported macOS arch: riscv64");
}
