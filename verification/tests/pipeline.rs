use bonsai::error::CustomError;
use bonsai::pipeline::{
    exit_status, failure_line, action_for, advance, binary_path, choose_emsdk, emsdk_candidates, emsdk_invocation,
    first_success, get_c_libraries, join_spaced, link_command, link_libraries, odin_args,
    script_binary_name, script_kind, should_copy, stages, start, DriverAction, PipelineState,
    ScriptKind, Stage,
};
use bonsai::sokol::{Profile, Target};

fn strings(list: &[&str]) -> Vec<String> {
    list.iter().map(|s| s.to_string()).collect()
}

#[test]
fn desktop_pipeline_prepares_compiles_and_copies() {
    assert_eq!(
        stages(Target::Desktop),
        vec![
            Stage::CheckDependencies,
            Stage::RunUtils,
            Stage::SyncManifest,
            Stage::PackAtlas,
            Stage::FontMetadata,
            Stage::CompileShaders,
            Stage::CompileNative,
            Stage::CompileProject,
            Stage::CopyAssets,
        ]
    );
}

#[test]
fn web_pipeline_ends_with_the_link() {
    let list = stages(Target::Web);
    assert_eq!(list.len(), 11);
    assert_eq!(&list[8..], &[Stage::CopyRuntime, Stage::CopyAssets, Stage::Link]);
    assert_eq!(&list[..8], &stages(Target::Desktop)[..8]);
}

#[test]
fn run_executes_every_stage_in_order_when_all_succeed() {
    for target in [Target::Desktop, Target::Web] {
        let mut state = start(target);
        let mut executed = Vec::new();
        loop {
            match action_for(target, &state) {
                DriverAction::Execute(stage) => {
                    executed.push(stage);
                    state = advance(target, state, Ok(()));
                }
                DriverAction::ReportSuccess => break,
                DriverAction::ReportFailure => panic!("no stage failed"),
            }
        }
        assert_eq!(executed, stages(target));
        assert!(matches!(state, PipelineState::Finished));
    }
}

#[test]
fn first_failure_ends_the_run() {
    let target = Target::Desktop;
    let mut state = start(target);
    let mut executed = 0;
    loop {
        match action_for(target, &state) {
            DriverAction::Execute(stage) => {
                executed += 1;
                let outcome = if stage == Stage::PackAtlas {
                    Err(CustomError::BuildError("atlas".to_string()))
                } else {
                    Ok(())
                };
                state = advance(target, state, outcome);
            }
            DriverAction::ReportSuccess => panic!("a stage failed"),
            DriverAction::ReportFailure => break,
        }
    }
    assert_eq!(executed, 4);
    match &state {
        PipelineState::Failed(e) => assert_eq!(e.message(), "Build failed: atlas"),
        _ => panic!("the run failed"),
    }
    // a run that is over stays over
    let state = advance(target, state, Ok(()));
    assert!(matches!(state, PipelineState::Failed(_)));
    let done = advance(target, PipelineState::Finished, Err(CustomError::IoError("x".to_string())));
    assert!(matches!(done, PipelineState::Finished));
    assert_eq!(action_for(target, &PipelineState::Running(99)), DriverAction::ReportSuccess);
}

#[test]
fn project_compiler_arguments_depend_on_target_and_profile() {
    assert_eq!(
        odin_args(Target::Desktop, Profile::Debug, "build/desktop/game_desktop.bin"),
        strings(&[
            "build",
            "source",
            "-vet",
            "-strict-style",
            "-debug",
            "-out:build/desktop/game_desktop.bin",
        ])
    );
    assert_eq!(
        odin_args(Target::Web, Profile::Release, "build/web/game.wasm.o"),
        strings(&[
            "build",
            "source",
            "-vet",
            "-strict-style",
            "-target:js_wasm32",
            "-build-mode:obj",
            "-o:speed",
            "-no-bounds-check",
            "-out:build/web/game.wasm.o",
        ])
    );
}

#[test]
fn binaries_are_written_into_the_build_directory_of_the_target() {
    assert_eq!(binary_path(Target::Desktop, false), "build/desktop/game_desktop.bin");
    assert_eq!(binary_path(Target::Desktop, true), "build/desktop/game_desktop.exe");
    assert_eq!(binary_path(Target::Web, false), "build/web/game.wasm.o");
    assert_eq!(binary_path(Target::Web, true), "build/web/game.wasm.o");
}

#[test]
fn web_build_links_project_framework_and_manifest_libraries() {
    let libs = link_libraries(
        "build/web/game.wasm.o",
        &strings(&["libs/extra.a", "libs/more.o"]),
        &vec![true, true],
    )
    .unwrap();
    assert_eq!(libs.len(), 13);
    assert_eq!(libs[0], "build/web/game.wasm.o");
    assert_eq!(&libs[1..11], &get_c_libraries()[..]);
    assert_eq!(libs[1], "source/libs/sokol/app/sokol_app_wasm_gl_release.a");
    assert_eq!(libs[10], "source/libs/stb/lib/stb_truetype_wasm.o");
    assert_eq!(&libs[11..], &strings(&["libs/extra.a", "libs/more.o"])[..]);
    assert_eq!(link_libraries("o", &Vec::new(), &Vec::new()).unwrap().len(), 11);
}

#[test]
fn missing_manifest_library_is_a_validation_error() {
    let err = link_libraries(
        "build/web/game.wasm.o",
        &strings(&["libs/a.a", "libs/b.a", "libs/c.a"]),
        &vec![true, false, false],
    )
    .unwrap_err();
    assert!(matches!(err, CustomError::ValidationError(_)));
    assert_eq!(err.message(), "Validation error: External library not found: libs/b.a");
}

#[test]
fn link_command_joins_libraries_with_spaces() {
    assert_eq!(join_spaced(&strings(&["a", "b", "c"])), "a b c");
    assert_eq!(join_spaced(&strings(&["a"])), "a");
    assert_eq!(join_spaced(&Vec::new()), "");
    assert_eq!(
        link_command("build/web/index.html", &strings(&["x.o", "y.a"])),
        "emcc -o build/web/index.html x.o y.a -sWASM_BIGINT -sWARN_ON_UNDEFINED_SYMBOLS=0 \
-sALLOW_MEMORY_GROWTH -sINITIAL_MEMORY=67108864 -sMAX_WEBGL_VERSION=2 -sASSERTIONS \
--shell-file source/core/platform/web/index.html --preload-file assets/images/atlas.png \
--preload-file assets/fonts -g"
    );
}

#[test]
fn web_toolchain_environment_is_sourced_before_the_command() {
    let (shell, flag, command) = emsdk_invocation("emcc -v", "/opt/emsdk", false);
    assert_eq!((shell, flag), ("bash", "-c"));
    assert_eq!(command, "source \"/opt/emsdk/emsdk_env.sh\" && emcc -v");
    let (shell, flag, command) = emsdk_invocation("emcc -v", "C:\\emsdk", true);
    assert_eq!((shell, flag), ("cmd", "/C"));
    assert_eq!(command, "call \"C:\\emsdk\\emsdk_env.bat\" >nul && emcc -v");
}

#[test]
fn web_toolchain_is_taken_from_the_environment_or_the_first_candidate() {
    let candidates = emsdk_candidates("/home/dev");
    assert_eq!(
        candidates,
        strings(&[
            "/home/dev/repos/emsdk",
            "/home/dev/emsdk",
            "/home/dev/tools/emsdk",
            "/home/dev/.emsdk",
        ])
    );
    let none = vec![false, false, false, false];
    assert_eq!(choose_emsdk(Some("/opt/emsdk"), true, &candidates, &none).unwrap(), "/opt/emsdk");
    let some = vec![false, true, false, true];
    assert_eq!(choose_emsdk(Some("/gone"), false, &candidates, &some).unwrap(), "/home/dev/emsdk");
    assert_eq!(choose_emsdk(None, false, &candidates, &some).unwrap(), "/home/dev/emsdk");
    let err = choose_emsdk(None, true, &candidates, &none).unwrap_err();
    assert!(err.is_build());
    assert!(err.message().starts_with("Build failed: Could not find Emscripten SDK.\n"));
    assert!(err.message().ends_with("installation folder"));
}

#[test]
fn first_candidate_that_succeeds_wins() {
    assert_eq!(first_success(&vec![false, true, true]), Some(1));
    assert_eq!(first_success(&vec![false, false]), None);
    assert_eq!(first_success(&Vec::new()), None);
}

#[test]
fn files_are_copied_when_missing_or_newer() {
    assert!(should_copy(5, None));
    assert!(should_copy(6, Some(5)));
    assert!(!should_copy(5, Some(5)));
    assert!(!should_copy(4, Some(5)));
}

#[test]
fn build_scripts_are_told_apart_by_extension() {
    assert_eq!(script_kind("utils/gen.py"), Some(ScriptKind::Python));
    assert_eq!(script_kind("utils/gen.rs"), Some(ScriptKind::Rust));
    assert_eq!(script_kind("utils/gen.odin"), None);
    assert_eq!(script_kind("utils/py"), None);
    assert_eq!(script_binary_name("utils/gen.rs", false), "gen.bin");
    assert_eq!(script_binary_name("utils/gen.rs", true), "gen.exe");
}

#[test]
fn failure_is_reported_with_its_command_and_a_failure_status() {
    let error = CustomError::BuildError("odin failed".to_string());
    assert_eq!(failure_line("build", &error), "[ERROR] (build): Build failed: odin failed.");
    assert_eq!(exit_status(&PipelineState::Failed(error)), 1);
    assert_eq!(exit_status(&PipelineState::Finished), 0);
    assert_eq!(exit_status(&PipelineState::Running(3)), 0);
}
