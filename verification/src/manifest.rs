//! The project manifest as plain data, and the rule that keeps a system's path
//! inside the systems directory.
use vstd::prelude::*;
use vstd::string::*;
use crate::error::CustomError;
use crate::text::{has_prefix, starts_with, str_chars};

verus! {

/// How a system is obtained.
#[derive(Debug)]
pub enum System {
    /// A released version.
    Version(String),
    /// A directory of the project.
    Path { path: String },
    /// A repository, at a tag if one is given.
    Git { url: String, tag: Option<String> },
}

/// The name and version of a project.
#[derive(Debug)]
pub struct ProjectInfo {
    pub name: String,
    pub version: String,
}

/// Build settings of a project.
#[derive(Debug)]
pub struct BuildOptions {
    /// Libraries that are linked into the web build besides the framework's own.
    pub web_libs: Vec<String>,
}

impl Default for BuildOptions {
    fn default() -> (options: BuildOptions)
        ensures
            options.web_libs@.len() == 0,
    {
        BuildOptions { web_libs: Vec::new() }
    }
}

/// One system of a project, under its name.
#[derive(Debug)]
pub struct SystemRecord {
    pub name: String,
    pub system: System,
}

/// The manifest of a project.
#[derive(Debug)]
pub struct Manifest {
    pub project: ProjectInfo,
    pub build: BuildOptions,
    /// The systems of the project; no name occurs twice.
    pub systems: Vec<SystemRecord>,
}

impl Manifest {
    /// No two systems have the same name.
    pub open spec fn wf(&self) -> bool {
        forall|i: int, j: int|
            0 <= i < j < self.systems@.len() ==> (#[trigger] self.systems@[i]).name@
                != (#[trigger] self.systems@[j]).name@
    }

    /// The manifest of a new project: its name, the given version, no extra
    /// libraries and no systems.
    pub fn new(project_name: &str, version: &str) -> (m: Manifest)
        ensures
            m.wf(),
            m.project.name@ == project_name@,
            m.project.version@ == version@,
            m.build.web_libs@.len() == 0,
            m.systems@.len() == 0,
    {
        Manifest {
            project: ProjectInfo {
                name: String::from_str(project_name),
                version: String::from_str(version),
            },
            build: BuildOptions { web_libs: Vec::new() },
            systems: Vec::new(),
        }
    }

    /// The position of the system with the given name.
    pub fn find_system(&self, name: &str) -> (r: Option<usize>)
        ensures
            r matches Some(i) ==> i < self.systems@.len() && self.systems@[i as int].name@ == name@,
            r is None ==> forall|j: int|
                0 <= j < self.systems@.len() ==> self.systems@[j].name@ != name@,
    {
        let wanted = String::from_str(name);
        let mut i: usize = 0;
        while i < self.systems.len()
            invariant
                i <= self.systems@.len(),
                wanted@ == name@,
                forall|j: int| 0 <= j < i ==> self.systems@[j].name@ != name@,
            decreases self.systems.len() - i,
        {
            if self.systems[i].name == wanted {
                return Some(i);
            }
            i = i + 1;
        }
        None
    }

    /// Adds a system under a name that the manifest does not hold yet; does nothing
    /// and returns `false` when the name is taken.
    pub fn add_system(&mut self, name: &str, system: System) -> (added: bool)
        requires
            old(self).wf(),
        ensures
            final(self).wf(),
            added == (forall|j: int|
                0 <= j < old(self).systems@.len() ==> old(self).systems@[j].name@ != name@),
            added ==> final(self).systems@.len() == old(self).systems@.len() + 1,
            added ==> final(self).systems@.last().name@ == name@,
            added ==> forall|j: int|
                0 <= j < old(self).systems@.len() ==> final(self).systems@[j] == old(self).systems@[j],
            !added ==> final(self).systems@ == old(self).systems@,
    {
        match self.find_system(name) {
            Some(_) => false,
            None => {
                self.systems.push(SystemRecord { name: String::from_str(name), system });
                true
            },
        }
    }
}

/// Whether the resolved path `child` lies at or below the resolved path `root`:
/// it is `root` itself, or it continues `root` with a new component.
pub open spec fn path_within(root: Seq<char>, child: Seq<char>) -> bool {
    &&& has_prefix(child, root)
    &&& (child.len() == root.len() || (root.len() > 0 && root.last() == '/') || child[root.len() as int]
        == '/')
}

/// The detail of the error for a root that cannot be resolved.
pub open spec fn root_missing_message(reason: Seq<char>) -> Seq<char> {
    "Root not found: "@ + reason
}

/// The detail of the error for a system path that cannot be resolved.
pub open spec fn child_missing_message(reason: Seq<char>) -> Seq<char> {
    "System path not found: "@ + reason
}

/// Decides whether a system's path stays inside the systems directory. Both paths
/// are given as they were resolved to absolute paths without links, or with the
/// reason why they could not be resolved. A root that cannot be resolved is
/// reported first.
pub fn is_path_safe(root: &Result<String, String>, child: &Result<String, String>) -> (r: Result<
    bool,
    CustomError,
>)
    ensures
        root matches Err(reason) ==> (r matches Err(e) && e is ValidationError && e.detail()
            == root_missing_message(reason@)),
        root is Ok ==> (child matches Err(reason) ==> (r matches Err(e) && e is ValidationError
            && e.detail() == child_missing_message(reason@))),
        root matches Ok(a) ==> (child matches Ok(b) ==> r == Ok::<bool, CustomError>(
            path_within(a@, b@),
        )),
{
    let root_abs = match root {
        Ok(a) => a,
        Err(reason) => {
            return Err(
                CustomError::ValidationError(
                    String::from_str("Root not found: ").concat(reason.as_str()),
                ),
            );
        },
    };
    let child_abs = match child {
        Ok(b) => b,
        Err(reason) => {
            return Err(
                CustomError::ValidationError(
                    String::from_str("System path not found: ").concat(reason.as_str()),
                ),
            );
        },
    };
    let a = str_chars(root_abs.as_str());
    let b = str_chars(child_abs.as_str());
    if !starts_with(&b, &a) {
        return Ok(false);
    }
    let n: usize = a.len();
    Ok(b.len() == n || (n > 0 && a[n - 1] == '/') || b[n] == '/')
}

/// The manifest that a new project starts with.
pub fn create_manifest(project_name: &str, version: &str) -> (m: Manifest)
    ensures
        m.wf(),
        m.project.name@ == project_name@,
        m.project.version@ == version@,
        m.build.web_libs@.len() == 0,
        m.systems@.len() == 0,
{
    Manifest::new(project_name, version)
}

} // verus!
