//! The project manager: the single entry point of the command layer. It owns
//! the resolved global configuration for its lifetime and selects the engine
//! backend a project's declared type calls for; it also plans project
//! initialization and the default package output location.

use vstd::prelude::*;
use vstd::string::StringSliceAdditionalSpecFns;

use crate::config::{spec_render_project, GlobalConfig, ProjectConfig};
use crate::engine::{spec_path_join, path_join, Engine, EngineType, EngineView};
use crate::error::Error;
use crate::text::{clone_bytes, str_bytes};

verus! {

/// Owns one global configuration, moved in at construction and never shared;
/// stateless beyond it, and constructed once per command invocation.
pub struct ProjectManager {
    pub global_config: GlobalConfig,
}

impl ProjectManager {
    /// The backend selected for `t`: the engine of that type, carrying the
    /// tool path the owned configuration registers for it, if any.
    pub open spec fn spec_get_engine(self, t: EngineType) -> Option<EngineView> {
        Some(EngineView { engine_type: t, tool_path: self.global_config@.spec_get(t) })
    }

    /// Takes ownership of the supplied configuration. Nothing is validated
    /// here: not every command needs an engine.
    pub fn new(global_config: GlobalConfig) -> (r: ProjectManager)
        ensures
            r.global_config@ == global_config@,
    {
        ProjectManager { global_config }
    }

    /// Selects the engine backend for `t`. Every supported type yields a
    /// backend; whether a tool path is registered for it surfaces later,
    /// before any external process is spawned.
    pub fn get_engine(&self, t: EngineType) -> (r: Option<Engine>)
        ensures
            match r {
                Some(e) => Some(e@) == self.spec_get_engine(t),
                None => self.spec_get_engine(t) is None,
            },
    {
        let tool_path = match self.engine_path_ref(t) {
            Some(p) => Some(clone_bytes(p)),
            None => None,
        };
        Some(Engine { engine_type: t, tool_path })
    }

    /// The registered path for `t`, borrowed from the owned configuration.
    fn engine_path_ref(&self, t: EngineType) -> (r: Option<&Vec<u8>>)
        ensures
            match r {
                Some(p) => self.global_config@.spec_get(t) == Some(p@),
                None => self.global_config@.spec_get(t) is None,
            },
    {
        match self.global_config.engine_path(t) {
            Some(p) => Some(p),
            None => None,
        }
    }

    /// Resolves the engine a project's configuration calls for: the project
    /// must declare an engine type, and a backend must exist for it. This
    /// takes no directory data at all, so it decides before any scan of the
    /// project directory could happen.
    pub fn resolve_engine(&self, project_config: &ProjectConfig) -> (r: Result<Engine, Error>)
        ensures
            project_config.engine_type is None ==> r == Err::<Engine, Error>(
                Error::EngineTypeNotSpecified,
            ),
            project_config.engine_type matches Some(t) ==> match self.spec_get_engine(t) {
                Some(ev) => (r matches Ok(e) && e@ == ev),
                None => r == Err::<Engine, Error>(Error::UnsupportedEngine(t)),
            },
    {
        let t = match project_config.engine_type {
            None => {
                return Err(Error::EngineTypeNotSpecified);
            },
            Some(t) => t,
        };
        match self.get_engine(t) {
            None => Err(Error::UnsupportedEngine(t)),
            Some(e) => Ok(e),
        }
    }

    /// Plans the scaffolding of a new project at `path`: the directory to
    /// create and the configuration file to write. A directory that already
    /// holds a configuration file is left untouched: re-running `init` is a
    /// deliberate no-op, never an overwrite.
    pub fn init_project(&self, path: &Vec<u8>, config_exists: bool) -> (r: InitPlan)
        ensures
            r.project_dir@ == path@,
            r.config_path@ == spec_path_join(path@, "gph.toml".spec_bytes()),
            config_exists ==> r.contents is None,
            !config_exists ==> (r.contents matches Some(c) && c@ == spec_render_project(None)),
    {
        let file_name = str_bytes("gph.toml");
        let config_path = path_join(path, &file_name);
        let contents = if config_exists {
            None
        } else {
            let template = ProjectConfig { engine_type: None };
            Some(template.to_toml_bytes())
        };
        InitPlan { project_dir: clone_bytes(path), config_path, contents }
    }
}

/// Selecting an engine is a pure function of the manager's configuration
/// snapshot: two managers over equal configurations select equal backends,
/// so two calls without an intervening mutation behave alike.
pub proof fn lemma_get_engine_pure(m1: ProjectManager, m2: ProjectManager, t: EngineType)
    requires
        m1.global_config@ == m2.global_config@,
    ensures
        m1.spec_get_engine(t) == m2.spec_get_engine(t),
{
}

/// What `init` performs: create the project directory, then write the
/// configuration file unless one already exists.
pub struct InitPlan {
    pub project_dir: Vec<u8>,
    pub config_path: Vec<u8>,
    pub contents: Option<Vec<u8>>,
}

/// The default output location of a package invocation, under the project's
/// own `.gph/packages`, one directory per timestamp.
pub open spec fn spec_default_output_path(path: Seq<u8>, timestamp: Seq<u8>) -> Seq<u8> {
    path + "/.gph/packages/".spec_bytes() + timestamp
}

/// The output directory a package invocation uses: the one requested, or the
/// timestamped default under the project directory. The caller creates it
/// before any engine dispatch, so it exists whatever the engine then does.
pub fn resolve_output_path(path: &Vec<u8>, output: &Option<Vec<u8>>, timestamp: &Vec<u8>) -> (r:
    Vec<u8>)
    ensures
        r@ == match output {
            Some(o) => o@,
            None => spec_default_output_path(path@, timestamp@),
        },
{
    match output {
        Some(o) => clone_bytes(o),
        None => {
            let mut r = clone_bytes(path);
            let middle = str_bytes("/.gph/packages/");
            crate::text::append_bytes(&mut r, &middle);
            crate::text::append_bytes(&mut r, timestamp);
            proof {
                assert(r@ =~= spec_default_output_path(path@, timestamp@));
            }
            r
        },
    }
}

/// The output directory of a package invocation, stamping the default with
/// the current local time: the requested directory when one was given, a
/// timestamped directory under the project's `.gph/packages` otherwise.
pub fn current_output_path(path: &Vec<u8>, output: &Option<Vec<u8>>) -> (r: Vec<u8>)
    ensures
        output matches Some(o) ==> r@ == o@,
        output is None ==> exists|ts: Seq<u8>| r@ == #[trigger] spec_default_output_path(
            path@,
            ts,
        ),
{
    let timestamp = crate::host::local_timestamp_compact();
    let r = resolve_output_path(path, output, &timestamp);
    proof {
        if output is None {
            assert(r@ == spec_default_output_path(path@, timestamp@));
        }
    }
    r
}

} // verus!
