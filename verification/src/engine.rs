//! The engine abstraction: the closed set of supported engine types, their
//! display and configuration-key names, and the round trip between the two
//! textual forms and the enumeration.

use vstd::prelude::*;
use vstd::string::StringSliceAdditionalSpecFns;

use crate::error::Error;
use crate::text::{
    append_bytes, bytes_eq, clone_bytes, ends_with, lines_view, spec_ends_with, str_bytes,
    vec_subrange,
};

verus! {

/// One of the supported third-party game engines.
#[derive(Clone, Copy, PartialEq, Eq, Structural, Debug)]
pub enum EngineType {
    Unreal,
    Unity,
    Godot,
}

impl EngineType {
    /// Display form of the engine type, as it stands in a project
    /// configuration file and in user-facing messages.
    pub open spec fn spec_name(self) -> Seq<u8> {
        match self {
            EngineType::Unreal => seq![('U' as u8), ('n' as u8), ('r' as u8), ('e' as u8), ('a' as u8), ('l' as u8)],
            EngineType::Unity => seq![('U' as u8), ('n' as u8), ('i' as u8), ('t' as u8), ('y' as u8)],
            EngineType::Godot => seq![('G' as u8), ('o' as u8), ('d' as u8), ('o' as u8), ('t' as u8)],
        }
    }

    /// Key form of the engine type, as it keys the engine-path table of the
    /// global configuration file.
    pub open spec fn spec_key(self) -> Seq<u8> {
        match self {
            EngineType::Unreal => seq![('u' as u8), ('n' as u8), ('r' as u8), ('e' as u8), ('a' as u8), ('l' as u8)],
            EngineType::Unity => seq![('u' as u8), ('n' as u8), ('i' as u8), ('t' as u8), ('y' as u8)],
            EngineType::Godot => seq![('g' as u8), ('o' as u8), ('d' as u8), ('o' as u8), ('t' as u8)],
        }
    }

    /// Display name of the engine type as bytes.
    pub fn name_bytes(self) -> (r: Vec<u8>)
        ensures
            r@ == self.spec_name(),
    {
        let mut r: Vec<u8> = Vec::new();
        match self {
            EngineType::Unreal => {
                r.push(('U' as u8));
                r.push(('n' as u8));
                r.push(('r' as u8));
                r.push(('e' as u8));
                r.push(('a' as u8));
                r.push(('l' as u8));
            },
            EngineType::Unity => {
                r.push(('U' as u8));
                r.push(('n' as u8));
                r.push(('i' as u8));
                r.push(('t' as u8));
                r.push(('y' as u8));
            },
            EngineType::Godot => {
                r.push(('G' as u8));
                r.push(('o' as u8));
                r.push(('d' as u8));
                r.push(('o' as u8));
                r.push(('t' as u8));
            },
        }
        proof {
            assert(r@ =~= self.spec_name());
        }
        r
    }

    /// Configuration key of the engine type as bytes.
    pub fn key_bytes(self) -> (r: Vec<u8>)
        ensures
            r@ == self.spec_key(),
    {
        let mut r: Vec<u8> = Vec::new();
        match self {
            EngineType::Unreal => {
                r.push(('u' as u8));
                r.push(('n' as u8));
                r.push(('r' as u8));
                r.push(('e' as u8));
                r.push(('a' as u8));
                r.push(('l' as u8));
            },
            EngineType::Unity => {
                r.push(('u' as u8));
                r.push(('n' as u8));
                r.push(('i' as u8));
                r.push(('t' as u8));
                r.push(('y' as u8));
            },
            EngineType::Godot => {
                r.push(('g' as u8));
                r.push(('o' as u8));
                r.push(('d' as u8));
                r.push(('o' as u8));
                r.push(('t' as u8));
            },
        }
        proof {
            assert(r@ =~= self.spec_key());
        }
        r
    }

    /// What parsing a display name yields: the engine type whose name the
    /// bytes are, if any.
    pub open spec fn spec_parse_name(s: Seq<u8>) -> Option<EngineType> {
        if s == EngineType::Unreal.spec_name() {
            Some(EngineType::Unreal)
        } else if s == EngineType::Unity.spec_name() {
            Some(EngineType::Unity)
        } else if s == EngineType::Godot.spec_name() {
            Some(EngineType::Godot)
        } else {
            None
        }
    }

    /// Parses a display name back into an engine type.
    pub fn parse_name(s: &Vec<u8>) -> (r: Option<EngineType>)
        ensures
            r == EngineType::spec_parse_name(s@),
    {
        let unreal = EngineType::Unreal.name_bytes();
        if crate::text::bytes_eq(s, &unreal) {
            return Some(EngineType::Unreal);
        }
        let unity = EngineType::Unity.name_bytes();
        if crate::text::bytes_eq(s, &unity) {
            return Some(EngineType::Unity);
        }
        let godot = EngineType::Godot.name_bytes();
        if crate::text::bytes_eq(s, &godot) {
            return Some(EngineType::Godot);
        }
        None
    }
}

/// The display names of distinct engine types are distinct, so a display
/// name parses back to exactly the engine type it was printed from.
pub proof fn lemma_name_round_trip(t: EngineType)
    ensures
        EngineType::spec_parse_name(t.spec_name()) == Some(t),
{
    assert(EngineType::Unreal.spec_name().len() == 6);
    assert(EngineType::Unity.spec_name()[2] == ('i' as u8));
    assert(EngineType::Godot.spec_name()[0] == ('G' as u8));
}

/// Two path components joined by a separator.
pub open spec fn spec_path_join(a: Seq<u8>, b: Seq<u8>) -> Seq<u8> {
    a + seq![('/' as u8)] + b
}

/// Joins two path components.
pub fn path_join(a: &Vec<u8>, b: &Vec<u8>) -> (r: Vec<u8>)
    ensures
        r@ == spec_path_join(a@, b@),
{
    let mut r = clone_bytes(a);
    r.push('/' as u8);
    append_bytes(&mut r, b);
    proof {
        assert(r@ =~= spec_path_join(a@, b@));
    }
    r
}

/// The model of one detected buildable unit.
#[verifier::ext_equal]
pub struct ProjectInfoView {
    pub name: Seq<u8>,
    pub path: Seq<u8>,
    pub engine_type: EngineType,
}

/// One buildable unit found under a directory: its name, where it lies, and
/// the engine that recognized it. Owned transiently by a build or package
/// flow; never persisted.
pub struct ProjectInfo {
    pub name: Vec<u8>,
    pub path: Vec<u8>,
    pub engine_type: EngineType,
}

impl View for ProjectInfo {
    type V = ProjectInfoView;

    open spec fn view(&self) -> ProjectInfoView {
        ProjectInfoView { name: self.name@, path: self.path@, engine_type: self.engine_type }
    }
}

/// The views of a sequence of detected projects.
pub open spec fn infos_view(s: Seq<ProjectInfo>) -> Seq<ProjectInfoView> {
    s.map_values(|p: ProjectInfo| p@)
}

/// Whether a directory entry marks a project of engine `t`: a `*.uproject`
/// descriptor for Unreal, the `Assets` folder for Unity, the `project.godot`
/// descriptor for Godot.
pub open spec fn spec_is_marker(t: EngineType, entry: Seq<u8>) -> bool {
    match t {
        EngineType::Unreal => entry.len() > ".uproject".spec_bytes().len() && spec_ends_with(
            entry,
            ".uproject".spec_bytes(),
        ),
        EngineType::Unity => entry == "Assets".spec_bytes(),
        EngineType::Godot => entry == "project.godot".spec_bytes(),
    }
}

/// The project a marker entry stands for: an Unreal descriptor names the
/// project after its stem; a Unity or Godot marker names the project after
/// the scanned directory itself.
pub open spec fn spec_project_info(t: EngineType, root: Seq<u8>, entry: Seq<u8>) -> ProjectInfoView {
    match t {
        EngineType::Unreal => ProjectInfoView {
            name: entry.subrange(0, entry.len() - ".uproject".spec_bytes().len()),
            path: spec_path_join(root, entry),
            engine_type: t,
        },
        EngineType::Unity => ProjectInfoView { name: root, path: root, engine_type: t },
        EngineType::Godot => ProjectInfoView { name: root, path: root, engine_type: t },
    }
}

/// The projects of engine `t` among the entries of `root`, in the order the
/// entries were handed over (the traversal order, never re-sorted).
pub open spec fn spec_detect(t: EngineType, root: Seq<u8>, entries: Seq<Seq<u8>>) -> Seq<
    ProjectInfoView,
>
    decreases entries.len(),
{
    if entries.len() == 0 {
        Seq::<ProjectInfoView>::empty()
    } else {
        let prefix = spec_detect(t, root, entries.drop_last());
        if spec_is_marker(t, entries.last()) {
            prefix + seq![spec_project_info(t, root, entries.last())]
        } else {
            prefix
        }
    }
}

/// Detection of no entries finds no project: an empty directory is a valid
/// "nothing found" result, not an error.
pub proof fn lemma_detect_empty(t: EngineType, root: Seq<u8>)
    ensures
        spec_detect(t, root, Seq::<Seq<u8>>::empty()).len() == 0,
{
}

/// The model of one engine-tool invocation.
#[verifier::ext_equal]
pub struct CommandSpecView {
    pub program: Seq<u8>,
    pub args: Seq<Seq<u8>>,
}

/// One invocation of an external engine tool: the program to spawn and its
/// arguments. The core only plans the invocation; spawning, waiting and
/// observing the exit status happen outside it.
pub struct CommandSpec {
    pub program: Vec<u8>,
    pub args: Vec<Vec<u8>>,
}

impl View for CommandSpec {
    type V = CommandSpecView;

    open spec fn view(&self) -> CommandSpecView {
        CommandSpecView { program: self.program@, args: lines_view(self.args@) }
    }
}

/// How an external engine tool ended: with an exit code, or interrupted
/// without one.
#[derive(Clone, Copy, PartialEq, Eq, Structural, Debug)]
pub enum ToolStatus {
    Exited(i32),
    Interrupted,
}

/// The arguments of a build invocation of engine `t` on `project`.
pub open spec fn spec_build_args(t: EngineType, project: ProjectInfoView) -> Seq<Seq<u8>> {
    match t {
        EngineType::Unreal => seq![
            "BuildCookRun".spec_bytes(),
            "-project=".spec_bytes() + project.path,
        ],
        EngineType::Unity => seq![
            "-batchmode".spec_bytes(),
            "-quit".spec_bytes(),
            "-projectPath".spec_bytes(),
            project.path,
        ],
        EngineType::Godot => seq!["--headless".spec_bytes(), "--path".spec_bytes(), project.path],
    }
}

/// The arguments of a package invocation: the build arguments, then the
/// output directory.
pub open spec fn spec_package_args(
    t: EngineType,
    project: ProjectInfoView,
    output: Seq<u8>,
) -> Seq<Seq<u8>> {
    spec_build_args(t, project) + seq![output]
}

/// One engine backend: the type it serves and the executable path registered
/// for it, when one is. Selected by the project manager from the global
/// configuration.
pub struct Engine {
    pub engine_type: EngineType,
    pub tool_path: Option<Vec<u8>>,
}

/// The model of an engine backend.
#[verifier::ext_equal]
pub struct EngineView {
    pub engine_type: EngineType,
    pub tool_path: Option<Seq<u8>>,
}

impl View for Engine {
    type V = EngineView;

    open spec fn view(&self) -> EngineView {
        EngineView {
            engine_type: self.engine_type,
            tool_path: crate::text::opt_bytes_view(self.tool_path),
        }
    }
}

impl Engine {
    /// Scans the entries of `root` for projects this engine recognizes and
    /// returns them in the order the entries were handed over. An empty
    /// result is a valid outcome, distinct from any failure.
    pub fn detect_projects(&self, root: &Vec<u8>, entries: &Vec<Vec<u8>>) -> (r: Vec<ProjectInfo>)
        ensures
            infos_view(r@) == spec_detect(self.engine_type, root@, lines_view(entries@)),
            entries@.len() == 0 ==> r@.len() == 0,
    {
        let t = self.engine_type;
        let ghost ev = lines_view(entries@);
        let uproject = str_bytes(".uproject");
        let assets = str_bytes("Assets");
        let godot_marker = str_bytes("project.godot");
        let n = entries.len();
        let mut r: Vec<ProjectInfo> = Vec::new();
        let mut i: usize = 0;
        proof {
            assert(ev.subrange(0, 0) =~= Seq::<Seq<u8>>::empty());
            assert(infos_view(r@) =~= spec_detect(t, root@, ev.subrange(0, 0)));
        }
        while i < n
            invariant
                0 <= i <= n == ev.len(),
                t == self.engine_type,
                ev == lines_view(entries@),
                ev.len() == entries@.len(),
                forall|k: int| 0 <= k < ev.len() ==> ev[k] == (#[trigger] entries@[k])@,
                uproject@ == ".uproject".spec_bytes(),
                assets@ == "Assets".spec_bytes(),
                godot_marker@ == "project.godot".spec_bytes(),
                infos_view(r@) == spec_detect(t, root@, ev.subrange(0, i as int)),
            decreases n - i,
        {
            let entry = &entries[i];
            let found: Option<ProjectInfo> = match t {
                EngineType::Unreal => {
                    if entry.len() > uproject.len() && ends_with(entry, &uproject) {
                        let name = vec_subrange(entry, 0, entry.len() - uproject.len());
                        let path = path_join(root, entry);
                        Some(ProjectInfo { name, path, engine_type: t })
                    } else {
                        None
                    }
                },
                EngineType::Unity => {
                    if bytes_eq(entry, &assets) {
                        Some(
                            ProjectInfo {
                                name: clone_bytes(root),
                                path: clone_bytes(root),
                                engine_type: t,
                            },
                        )
                    } else {
                        None
                    }
                },
                EngineType::Godot => {
                    if bytes_eq(entry, &godot_marker) {
                        Some(
                            ProjectInfo {
                                name: clone_bytes(root),
                                path: clone_bytes(root),
                                engine_type: t,
                            },
                        )
                    } else {
                        None
                    }
                },
            };
            proof {
                assert(ev.subrange(0, i + 1).drop_last() =~= ev.subrange(0, i as int));
                assert(ev.subrange(0, i + 1).last() == ev[i as int]);
            }
            match found {
                Some(p) => {
                    proof {
                        assert(spec_is_marker(t, ev[i as int]));
                        assert(p@ =~= spec_project_info(t, root@, ev[i as int]));
                        assert(infos_view(r@.push(p)) =~= infos_view(r@) + seq![p@]);
                        assert(spec_detect(t, root@, ev.subrange(0, i + 1)) =~= infos_view(r@)
                            + seq![p@]);
                    }
                    r.push(p);
                },
                None => {
                    proof {
                        assert(!spec_is_marker(t, ev[i as int]));
                        assert(spec_detect(t, root@, ev.subrange(0, i + 1)) == spec_detect(
                            t,
                            root@,
                            ev.subrange(0, i as int),
                        ));
                    }
                },
            }
            i += 1;
        }
        proof {
            assert(ev.subrange(0, n as int) =~= ev);
        }
        r
    }

    /// Plans the build invocation for `project`. A backend with no registered
    /// tool path is reported as unconfigured here, before any external
    /// process could be spawned.
    pub fn build_command(&self, project: &ProjectInfo) -> (r: Result<CommandSpec, Error>)
        ensures
            self.tool_path is None ==> r == Err::<CommandSpec, Error>(
                Error::EngineNotConfigured(self.engine_type),
            ),
            self.tool_path matches Some(tool) ==> (r matches Ok(c) && c@ == (CommandSpecView {
                program: tool@,
                args: spec_build_args(self.engine_type, project@),
            })),
    {
        let tool = match &self.tool_path {
            None => {
                return Err(Error::EngineNotConfigured(self.engine_type));
            },
            Some(tool) => clone_bytes(tool),
        };
        let args = build_args(self.engine_type, project);
        Ok(CommandSpec { program: tool, args })
    }

    /// Plans the package invocation for `project` into `output_path`, which
    /// the caller guarantees to exist beforehand. Unconfigured backends are
    /// reported as in `build_command`.
    pub fn package_command(&self, project: &ProjectInfo, output_path: &Vec<u8>) -> (r: Result<
        CommandSpec,
        Error,
    >)
        ensures
            self.tool_path is None ==> r == Err::<CommandSpec, Error>(
                Error::EngineNotConfigured(self.engine_type),
            ),
            self.tool_path matches Some(tool) ==> (r matches Ok(c) && c@ == (CommandSpecView {
                program: tool@,
                args: spec_package_args(self.engine_type, project@, output_path@),
            })),
    {
        let tool = match &self.tool_path {
            None => {
                return Err(Error::EngineNotConfigured(self.engine_type));
            },
            Some(tool) => clone_bytes(tool),
        };
        let mut args = build_args(self.engine_type, project);
        let out = clone_bytes(output_path);
        proof {
            assert(lines_view(args@.push(out)) =~= lines_view(args@) + seq![output_path@]);
        }
        args.push(out);
        Ok(CommandSpec { program: tool, args })
    }
}

/// Builds the argument vector of a build invocation.
fn build_args(t: EngineType, project: &ProjectInfo) -> (r: Vec<Vec<u8>>)
    ensures
        lines_view(r@) == spec_build_args(t, project@),
{
    let mut args: Vec<Vec<u8>> = Vec::new();
    match t {
        EngineType::Unreal => {
            args.push(str_bytes("BuildCookRun"));
            let mut proj = str_bytes("-project=");
            append_bytes(&mut proj, &project.path);
            args.push(proj);
        },
        EngineType::Unity => {
            args.push(str_bytes("-batchmode"));
            args.push(str_bytes("-quit"));
            args.push(str_bytes("-projectPath"));
            args.push(clone_bytes(&project.path));
        },
        EngineType::Godot => {
            args.push(str_bytes("--headless"));
            args.push(str_bytes("--path"));
            args.push(clone_bytes(&project.path));
        },
    }
    proof {
        assert(lines_view(args@) =~= spec_build_args(t, project@));
    }
    args
}

/// Maps the observed end of a build tool to the build's outcome: success
/// exactly on a zero exit code, a build failure carrying the project's name
/// and the tool's status otherwise.
pub fn build_outcome(project: &ProjectInfo, status: ToolStatus) -> (r: Result<(), Error>)
    ensures
        match status {
            ToolStatus::Exited(c) => if c == 0 {
                r == Ok::<(), Error>(())
            } else {
                (r matches Err(e) && e matches Error::BuildFailure { project: p, status: s }
                    && p@ == project.name@ && s == Some(c))
            },
            ToolStatus::Interrupted => (r matches Err(e) && e matches Error::BuildFailure {
                project: p,
                status: s,
            } && p@ == project.name@ && s == Option::<i32>::None),
        },
{
    match status {
        ToolStatus::Exited(c) => {
            if c == 0 {
                Ok(())
            } else {
                Err(Error::BuildFailure { project: clone_bytes(&project.name), status: Some(c) })
            }
        },
        ToolStatus::Interrupted => {
            Err(Error::BuildFailure { project: clone_bytes(&project.name), status: None })
        },
    }
}

/// Maps the observed end of a packaging invocation to the package phase's
/// outcome, distinct from a build failure so callers can report which phase
/// broke.
pub fn package_outcome(project: &ProjectInfo, status: ToolStatus) -> (r: Result<(), Error>)
    ensures
        match status {
            ToolStatus::Exited(c) => if c == 0 {
                r == Ok::<(), Error>(())
            } else {
                (r matches Err(e) && e matches Error::PackageFailure { project: p, status: s }
                    && p@ == project.name@ && s == Some(c))
            },
            ToolStatus::Interrupted => (r matches Err(e) && e matches Error::PackageFailure {
                project: p,
                status: s,
            } && p@ == project.name@ && s == Option::<i32>::None),
        },
{
    match status {
        ToolStatus::Exited(c) => {
            if c == 0 {
                Ok(())
            } else {
                Err(Error::PackageFailure { project: clone_bytes(&project.name), status: Some(c) })
            }
        },
        ToolStatus::Interrupted => {
            Err(Error::PackageFailure { project: clone_bytes(&project.name), status: None })
        },
    }
}

/// The project a build or package invocation acts on: the first detected
/// one. Acting on the first, rather than demanding a selection, is the
/// deliberate policy for directories that hold several projects.
pub fn select_project(projects: &Vec<ProjectInfo>) -> (r: Option<&ProjectInfo>)
    ensures
        projects@.len() == 0 ==> r is None,
        projects@.len() > 0 ==> (r matches Some(p) && p@ == projects@[0]@),
{
    if projects.len() == 0 {
        None
    } else {
        Some(&projects[0])
    }
}

/// The message printed when detection finds nothing: not an error, the
/// command still succeeds.
pub open spec fn spec_no_project_message(t: EngineType, path: Seq<u8>) -> Seq<u8> {
    "No ".spec_bytes() + t.spec_name() + " project found at path '".spec_bytes() + path
        + "'".spec_bytes()
}

/// Renders the message reported when detection finds nothing.
pub fn no_project_message(t: EngineType, path: &Vec<u8>) -> (r: Vec<u8>)
    ensures
        r@ == spec_no_project_message(t, path@),
{
    let mut m = str_bytes("No ");
    let name = t.name_bytes();
    append_bytes(&mut m, &name);
    let middle = str_bytes(" project found at path '");
    append_bytes(&mut m, &middle);
    append_bytes(&mut m, path);
    let tail = str_bytes("'");
    append_bytes(&mut m, &tail);
    proof {
        assert(m@ =~= spec_no_project_message(t, path@));
    }
    m
}

} // verus!
