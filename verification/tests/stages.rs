use bonsai::error::CustomError;
use bonsai::manifest::create_manifest;
use bonsai::process::attach_output;
use bonsai::shaders::cache_copies;
use bonsai::sokol::{
    sokol_root, compile_sokol, desktop_tasks, wasm_tasks, worker_count, HostFacts, MatrixPlan, Platform,
    Profile,
};
use bonsai::staleness::is_stale_checked;

fn denied<T>() -> Result<T, String> {
    Err("permission denied".to_string())
}

#[test]
fn unreadable_timestamp_is_an_error_and_never_fresh() {
    let err = is_stale_checked(Ok(5), denied()).unwrap_err();
    assert!(matches!(err, CustomError::IoError(_)));
    assert_eq!(err.message(), "I/O operation failed: permission denied");
    let err = is_stale_checked(denied(), Ok(Some(5))).unwrap_err();
    assert_eq!(err.message(), "I/O operation failed: permission denied");
    assert!(is_stale_checked(denied(), Ok(None)).unwrap());
    assert!(is_stale_checked(Ok(6), Ok(Some(5))).unwrap());
    assert!(!is_stale_checked(Ok(5), Ok(Some(5))).unwrap());
    assert!(is_stale_checked(Ok(0), Ok(None)).unwrap());
}

#[test]
fn shader_and_includes_are_staged_under_their_file_names() {
    let includes = vec![
        "source/core/shaders/shader_core.glsl".to_string(),
        "source/core/shaders/shader_header.glsl".to_string(),
        "source/core/shaders/shader_utils.glsl".to_string(),
    ];
    let copies = cache_copies("build/shader_cache", "game/fx/blur.glsl", &includes);
    assert_eq!(copies.len(), 4);
    assert_eq!(copies[0].from, "game/fx/blur.glsl");
    assert_eq!(copies[0].to, "build/shader_cache/blur.glsl");
    assert_eq!(copies[1].from, "source/core/shaders/shader_core.glsl");
    assert_eq!(copies[1].to, "build/shader_cache/shader_core.glsl");
    assert_eq!(copies[3].to, "build/shader_cache/shader_utils.glsl");
    assert_eq!(cache_copies("c", "a.glsl", &Vec::new()).len(), 1);
}

#[test]
fn captured_lines_are_attached_to_build_errors_only() {
    let lines = vec!["error: x".to_string(), "at line 3".to_string()];
    let build = attach_output(CustomError::BuildError("sokol-shdc failed".to_string()), &lines);
    assert_eq!(build.message(), "Build failed: sokol-shdc failed\nerror: x\nat line 3");
    let plain = attach_output(CustomError::BuildError("odin failed".to_string()), &Vec::new());
    assert_eq!(plain.message(), "Build failed: odin failed");
    let process = attach_output(CustomError::ProcessError("no odin".to_string()), &lines);
    assert!(matches!(process, CustomError::ProcessError(_)));
    assert_eq!(process.message(), "Process execution failed: no odin");
}

#[test]
fn workers_are_bounded_by_the_host_and_the_tasks() {
    assert_eq!(worker_count(8, 18), 8);
    assert_eq!(worker_count(32, 18), 18);
    assert_eq!(worker_count(0, 18), 1);
    assert_eq!(worker_count(8, 0), 0);
    assert_eq!(worker_count(18, 18), 18);
}

fn host(os: &str, compiler_found: bool, root_exists: bool) -> HostFacts {
    HostFacts { os: os.to_string(), compiler_found, root_exists }
}

#[test]
fn native_build_is_planned_after_the_host_check() {
    let plan =
        compile_sokol(false, true, false, &host("linux", true, true), "bonsai/libs/sokol", false)
            .unwrap();
    match plan {
        MatrixPlan::Run { clean, tasks } => {
            assert!(!clean);
            assert_eq!(tasks, desktop_tasks(Platform::Linux, Profile::Debug));
        }
        MatrixPlan::Skip => panic!("the marker is missing"),
    }
    let skipped =
        compile_sokol(false, false, false, &host("macos", true, true), "bonsai/libs/sokol", true)
            .unwrap();
    assert!(matches!(skipped, MatrixPlan::Skip));
    let web = compile_sokol(true, false, true, &host("linux", true, true), "bonsai/libs/sokol", true)
        .unwrap();
    match web {
        MatrixPlan::Run { clean, tasks } => {
            assert!(clean);
            assert_eq!(tasks, wasm_tasks());
        }
        MatrixPlan::Skip => panic!("a clean build skips nothing"),
    }
    let err =
        compile_sokol(false, true, false, &host("linux", true, false), "bonsai/libs/sokol", true)
            .unwrap_err();
    assert_eq!(err.message(), "Build failed: Sokol directory not found: bonsai/libs/sokol");
}

#[test]
fn clean_build_followed_by_a_normal_build_skips_nothing() {
    // the clean build runs whatever the marker says
    let first =
        compile_sokol(false, true, true, &host("linux", true, true), "bonsai/libs/sokol", true)
            .unwrap();
    assert!(matches!(first, MatrixPlan::Run { clean: true, .. }));
    // its purge removed the marker, so a normal build that follows the purge runs too
    let second =
        compile_sokol(false, true, false, &host("linux", true, true), "bonsai/libs/sokol", false)
            .unwrap();
    match second {
        MatrixPlan::Run { clean, tasks } => {
            assert!(!clean);
            assert_eq!(tasks.len(), 9);
        }
        MatrixPlan::Skip => panic!("nothing may be skipped"),
    }
}

#[test]
fn manifest_of_a_new_project_is_empty() {
    let m = create_manifest("game", "0.1.0");
    assert_eq!(m.project.name, "game");
    assert_eq!(m.project.version, "0.1.0");
    assert!(m.systems.is_empty() && m.build.web_libs.is_empty());
}

#[test]
fn native_sources_lie_under_the_framework_directory() {
    assert_eq!(sokol_root(), "bonsai/libs/sokol");
}

#[test]
fn missing_compiler_stops_the_native_build_before_anything_is_planned() {
    let err =
        compile_sokol(true, false, true, &host("linux", false, true), "bonsai/libs/sokol", true)
            .unwrap_err();
    assert!(matches!(err, CustomError::ProcessError(_)));
    assert!(err.message().contains("emcc"));
    let err =
        compile_sokol(false, false, false, &host("windows", false, true), "bonsai/libs/sokol", true)
            .unwrap_err();
    assert!(matches!(err, CustomError::ProcessError(_)));
    assert!(err.message().contains("'cl'"));
}
