use bonsai::shaders::{
    cache_path, dialects, get_executable_name, get_shdc_url, is_shader_source, plan_shaders,
    shader_output, shdc_args, ShaderFile,
};

fn strings(list: &[&str]) -> Vec<String> {
    list.iter().map(|s| s.to_string()).collect()
}

#[test]
fn shader_sources_are_recognised_by_extension() {
    assert!(is_shader_source("source/shaders/shader.glsl", false));
    assert!(is_shader_source("game/fx/blur.vert", false));
    assert!(is_shader_source("game/fx/blur.frag", false));
    assert!(!is_shader_source("source/shaders/shader.odin", false));
    assert!(!is_shader_source("source/shaders/glsl", false));
    assert!(!is_shader_source("source/shaders.glsl", true));
}

#[test]
fn compiled_shader_lies_beside_its_source() {
    assert_eq!(shader_output("source/shaders/shader.glsl"), "source/shaders/shader.odin");
    assert_eq!(shader_output("fx/blur.frag"), "fx/blur.odin");
}

#[test]
fn cache_is_flat() {
    assert_eq!(cache_path(".cache/shaders", "source/core/shader_utils.glsl"), ".cache/shaders/shader_utils.glsl");
    assert_eq!(cache_path(".cache/shaders/", "header.glsl"), ".cache/shaders/header.glsl");
}

#[test]
fn cross_compiler_is_called_with_the_dialects_of_the_host() {
    assert_eq!(dialects(true), "glsl300es:hlsl4:glsl430");
    assert_eq!(dialects(false), "metal_macos:glsl300es:hlsl4:glsl430");
    assert_eq!(
        shdc_args("source/shaders/shader.glsl", "source/shaders/shader.odin", false),
        strings(&[
            "-i",
            "source/shaders/shader.glsl",
            "-o",
            "source/shaders/shader.odin",
            "-l",
            "metal_macos:glsl300es:hlsl4:glsl430",
            "-f",
            "sokol_odin",
        ])
    );
    assert_eq!(shdc_args("a.glsl", "a.odin", true)[5], "glsl300es:hlsl4:glsl430");
}

fn shader(path: &str, mtime: u64, output_mtime: Option<u64>) -> ShaderFile {
    ShaderFile { path: path.to_string(), is_dir: false, mtime, output_mtime }
}

#[test]
fn only_stale_shader_sources_are_compiled() {
    let files = vec![
        shader("source/shaders/shader.glsl", 10, Some(10)),
        shader("game/a.glsl", 11, Some(10)),
        shader("game/b.frag", 5, None),
        shader("game/notes.txt", 50, None),
        ShaderFile { path: "game/dir.glsl".to_string(), is_dir: true, mtime: 50, output_mtime: None },
        shader("game/c.vert", 5, Some(6)),
    ];
    let jobs = plan_shaders(&files, true);
    assert_eq!(jobs.len(), 2);
    assert_eq!(jobs[0].source, "game/a.glsl");
    assert_eq!(jobs[0].output, "game/a.odin");
    assert_eq!(jobs[0].args, shdc_args("game/a.glsl", "game/a.odin", true));
    assert_eq!(jobs[1].source, "game/b.frag");
    assert_eq!(jobs[1].output, "game/b.odin");
    assert!(plan_shaders(&Vec::new(), false).is_empty());
    assert!(shader("x.glsl", 3, Some(2)).must_compile());
    assert!(!shader("x.glsl", 2, Some(2)).must_compile());
}

#[test]
fn cross_compiler_download_depends_on_the_platform() {
    let base = "https://raw.githubusercontent.com/floooh/sokol-tools-bin/master/bin";
    assert_eq!(get_shdc_url("windows", "x86_64").unwrap(), format!("{}/win32/sokol-shdc.exe", base));
    assert_eq!(get_shdc_url("linux", "aarch64").unwrap(), format!("{}/linux/sokol-shdc", base));
    assert_eq!(get_shdc_url("macos", "aarch64").unwrap(), format!("{}/osx_arm64/sokol-shdc", base));
    assert_eq!(get_shdc_url("macos", "x86_64").unwrap(), format!("{}/osx/sokol-shdc", base));
    let err = get_shdc_url("freebsd", "x86_64").unwrap_err();
    assert_eq!(err.message(), "Validation error: Unsupported platform: freebsd x86_64");
    assert_eq!(get_executable_name("windows"), "sokol-shdc.exe");
    assert_eq!(get_executable_name("linux"), "sokol-shdc");
}
