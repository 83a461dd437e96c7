//! The arguments of the commands and the rules that check them before any work is done.
use vstd::prelude::*;
use vstd::string::*;
use crate::error::CustomError;
use crate::sokol::{Profile, Target};
use crate::lines::{trim, trim_of};
use crate::text::str_chars;

verus! {

/// The arguments of the build command.
#[derive(Debug)]
pub struct BuildArgs {
    pub dir: String,
    pub desktop: bool,
    pub web: bool,
    pub config: String,
    pub clean: bool,
    pub verbose: bool,
}

/// The arguments of the run command.
#[derive(Debug)]
pub struct RunArgs {
    pub dir: String,
    pub desktop: bool,
    pub web: bool,
    pub config: String,
    pub clean: bool,
    pub port: u16,
    pub verbose: bool,
}

/// The arguments of the init command.
#[derive(Debug)]
pub struct InitArgs {
    pub name: String,
    pub dir: Option<String>,
    pub version: String,
    pub verbose: bool,
}

/// The arguments of the install command.
#[derive(Debug)]
pub struct InstallArgs {
    pub url: String,
    pub version: String,
    pub name: Option<String>,
    pub verbose: bool,
}

/// The arguments of the remove command.
#[derive(Debug)]
pub struct RemoveArgs {
    pub name: String,
    pub yes: bool,
    pub verbose: bool,
}

/// The target that the flags select: the web when asked for, the desktop otherwise.
pub open spec fn target_of(web: bool) -> Target {
    if web {
        Target::Web
    } else {
        Target::Desktop
    }
}

/// The profile that a configuration name selects: debug for `debug`, release for
/// every other name.
pub open spec fn profile_of(config: Seq<char>) -> Profile {
    if config == "debug"@ {
        Profile::Debug
    } else {
        Profile::Release
    }
}

fn profile_for(config: &String) -> (p: Profile)
    ensures
        p == profile_of(config@),
{
    let debug = String::from_str("debug");
    if *config == debug {
        Profile::Debug
    } else {
        Profile::Release
    }
}

impl BuildArgs {
    /// The arguments of a build with every option left at its default.
    pub fn defaults() -> (args: BuildArgs)
        ensures
            args.dir@ == "."@,
            args.config@ == "debug"@,
            !args.desktop && !args.web && !args.clean && !args.verbose,
    {
        BuildArgs {
            dir: String::from_str("."),
            desktop: false,
            web: false,
            config: String::from_str("debug"),
            clean: false,
            verbose: false,
        }
    }

    /// The target that is built.
    pub fn target(&self) -> (t: Target)
        ensures
            t == target_of(self.web),
    {
        if self.web {
            Target::Web
        } else {
            Target::Desktop
        }
    }

    /// The profile that is built.
    pub fn profile(&self) -> (p: Profile)
        ensures
            p == profile_of(self.config@),
    {
        profile_for(&self.config)
    }
}

impl RunArgs {
    /// The arguments of a run with every option left at its default.
    pub fn defaults() -> (args: RunArgs)
        ensures
            args.dir@ == "."@,
            args.config@ == "debug"@,
            args.port == 8080,
            !args.desktop && !args.web && !args.clean && !args.verbose,
    {
        RunArgs {
            dir: String::from_str("."),
            desktop: false,
            web: false,
            config: String::from_str("debug"),
            clean: false,
            port: 8080,
            verbose: false,
        }
    }

    /// The target that is built and run.
    pub fn target(&self) -> (t: Target)
        ensures
            t == target_of(self.web),
    {
        if self.web {
            Target::Web
        } else {
            Target::Desktop
        }
    }

    /// The profile that is built.
    pub fn profile(&self) -> (p: Profile)
        ensures
            p == profile_of(self.config@),
    {
        profile_for(&self.config)
    }
}

/// The detail of the error for a project directory that does not exist.
pub open spec fn missing_dir_message(dir: Seq<char>) -> Seq<char> {
    "Directory '"@ + dir + "' does not exist"@
}

/// The detail of the error for a directory without a manifest.
pub open spec fn missing_manifest_message(dir: Seq<char>) -> Seq<char> {
    "Not a bonsai project: '"@ + dir + "'. (Missing bonsai.toml)"@
}

/// Checks that a build can start in a directory: the directory exists and holds a
/// manifest. A missing directory is reported first.
pub fn check_project(dir: &str, dir_exists: bool, manifest_exists: bool) -> (r: Result<
    (),
    CustomError,
>)
    ensures
        r is Ok <==> dir_exists && manifest_exists,
        !dir_exists ==> (r matches Err(e) && e is ValidationError && e.detail()
            == missing_dir_message(dir@)),
        dir_exists && !manifest_exists ==> (r matches Err(e) && e is ValidationError && e.detail()
            == missing_manifest_message(dir@)),
{
    if !dir_exists {
        return Err(
            CustomError::ValidationError(
                String::from_str("Directory '").concat(dir).concat("' does not exist"),
            ),
        );
    }
    if !manifest_exists {
        return Err(
            CustomError::ValidationError(
                String::from_str("Not a bonsai project: '").concat(dir).concat(
                    "'. (Missing bonsai.toml)",
                ),
            ),
        );
    }
    Ok(())
}

/// Whether a character may not occur in a project name on the host.
pub open spec fn forbidden_in_name(c: char, windows: bool) -> bool {
    if windows {
        c == '<' || c == '>' || c == ':' || c == '"' || c == '|' || c == '?' || c == '*'
    } else {
        c == '/' || c == '\0'
    }
}

/// Whether a project name is acceptable on the host: it is not empty and holds no
/// forbidden character.
pub open spec fn valid_project_name(name: Seq<char>, windows: bool) -> bool {
    name.len() > 0 && forall|i: int| 0 <= i < name.len() ==> !forbidden_in_name(name[i], windows)
}

/// Tests whether a project name is acceptable on the host.
pub fn is_valid_project_name(name: &str, windows: bool) -> (r: bool)
    ensures
        r == valid_project_name(name@, windows),
{
    let chars = str_chars(name);
    if chars.len() == 0 {
        return false;
    }
    let mut i: usize = 0;
    while i < chars.len()
        invariant
            i <= chars@.len(),
            chars@ == name@,
            forall|k: int| 0 <= k < i ==> !forbidden_in_name(name@[k], windows),
        decreases chars.len() - i,
    {
        let c = chars[i];
        let bad = if windows {
            c == '<' || c == '>' || c == ':' || c == '"' || c == '|' || c == '?' || c == '*'
        } else {
            c == '/' || c == '\0'
        };
        if bad {
            return false;
        }
        i = i + 1;
    }
    true
}

/// Whether a system name is acceptable: it holds neither a slash nor a backslash.
pub open spec fn valid_system_name(name: Seq<char>) -> bool {
    forall|i: int| 0 <= i < name.len() ==> name[i] != '/' && name[i] != '\\'
}

/// Tests whether a system name is acceptable.
pub fn is_valid_system_name(name: &str) -> (r: bool)
    ensures
        r == valid_system_name(name@),
{
    let chars = str_chars(name);
    let mut i: usize = 0;
    while i < chars.len()
        invariant
            i <= chars@.len(),
            chars@ == name@,
            forall|k: int| 0 <= k < i ==> name@[k] != '/' && name@[k] != '\\',
        decreases chars.len() - i,
    {
        if chars[i] == '/' || chars[i] == '\\' {
            return false;
        }
        i = i + 1;
    }
    true
}

impl InitArgs {
    /// The directory that receives the new project: the one given, or one named
    /// like the project.
    pub fn destination(&self) -> (dir: String)
        ensures
            dir@ == match self.dir {
                Some(d) => d@,
                None => self.name@,
            },
    {
        match &self.dir {
            Some(d) => d.clone(),
            None => self.name.clone(),
        }
    }
}

/// Whether an answer to a question means yes: `y` or `yes`, in either case of
/// letters, with any white space around it.
pub open spec fn affirmative(input: Seq<char>) -> bool {
    let t = trim_of(input);
    ||| t.len() == 1 && (t[0] == 'y' || t[0] == 'Y')
    ||| t.len() == 3 && (t[0] == 'y' || t[0] == 'Y') && (t[1] == 'e' || t[1] == 'E') && (t[2]
        == 's' || t[2] == 'S')
}

/// Tests whether an answer to a question means yes.
pub fn is_affirmative(input: &str) -> (r: bool)
    ensures
        r == affirmative(input@),
{
    let chars = str_chars(input);
    let t = trim(&chars);
    if t.len() == 1 {
        t[0] == 'y' || t[0] == 'Y'
    } else if t.len() == 3 {
        (t[0] == 'y' || t[0] == 'Y') && (t[1] == 'e' || t[1] == 'E') && (t[2] == 's' || t[2]
            == 'S')
    } else {
        false
    }
}

/// The paths, relative to the project, that a clean removes before a build: the
/// build directory, the compiled core shader, and what the build scripts left behind.
pub open spec fn clean_targets_of() -> Seq<Seq<char>> {
    seq!["build"@, "source/shaders/shader.odin"@, "utils/__pycache__"@, "utils/target"@]
}

/// The paths that a clean removes before a build.
pub fn clean_targets() -> (list: Vec<String>)
    ensures
        crate::text::strs(list@) == clean_targets_of(),
{
    let mut list: Vec<String> = Vec::new();
    assert(crate::text::strs(list@) =~= Seq::<Seq<char>>::empty());
    crate::text::push_string(&mut list, "build");
    crate::text::push_string(&mut list, "source/shaders/shader.odin");
    crate::text::push_string(&mut list, "utils/__pycache__");
    crate::text::push_string(&mut list, "utils/target");
    assert(crate::text::strs(list@) =~= clean_targets_of());
    list
}

} // verus!
