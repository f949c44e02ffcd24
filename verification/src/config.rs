//! The two-tier configuration model: the user-scoped global configuration
//! (one optional tool path per engine) and the per-project configuration
//! (the declared engine type). Both are persisted as small TOML tables; the
//! codec is verified, and saving followed by loading provably reproduces the
//! engine-path mapping.

use vstd::prelude::*;

use crate::engine::EngineType;
use crate::error::Error;
use crate::text::{
    bytes_eq, has_no_newline, kv_line, lines_view, opt_bytes_view, parse_kv_line,
    spec_join_lines, spec_kv_line, spec_parse_kv_line, spec_split_lines, spec_starts_with,
    split_lines, starts_with, lemma_join_lines_concat, lemma_kv_line_no_newline,
    lemma_kv_line_round_trip, lemma_split_join_lines, vec_subrange, EQ, HASH, LBRACKET, NL,
};

verus! {

/// The mathematical model of the engine-path table: what each engine's
/// registered path is, if any.
#[verifier::ext_equal]
pub struct EnginePathsView {
    pub unreal: Option<Seq<u8>>,
    pub unity: Option<Seq<u8>>,
    pub godot: Option<Seq<u8>>,
}

impl EnginePathsView {
    /// The table with no path registered.
    pub open spec fn spec_empty() -> EnginePathsView {
        EnginePathsView { unreal: None, unity: None, godot: None }
    }

    /// The path registered for `t`, if any.
    pub open spec fn spec_get(self, t: EngineType) -> Option<Seq<u8>> {
        match t {
            EngineType::Unreal => self.unreal,
            EngineType::Unity => self.unity,
            EngineType::Godot => self.godot,
        }
    }

    /// The table with the path of `t` set to `p`, every other entry kept.
    pub open spec fn spec_set(self, t: EngineType, p: Seq<u8>) -> EnginePathsView {
        match t {
            EngineType::Unreal => EnginePathsView { unreal: Some(p), ..self },
            EngineType::Unity => EnginePathsView { unity: Some(p), ..self },
            EngineType::Godot => EnginePathsView { godot: Some(p), ..self },
        }
    }

    /// The table with the path of `t` set when `p` holds one, unchanged
    /// otherwise.
    pub open spec fn spec_merge(self, t: EngineType, p: Option<Seq<u8>>) -> EnginePathsView {
        match p {
            None => self,
            Some(v) => self.spec_set(t, v),
        }
    }
}

/// User-scoped settings shared by every project: the engine-path table.
pub struct EnginePaths {
    pub unreal: Option<Vec<u8>>,
    pub unity: Option<Vec<u8>>,
    pub godot: Option<Vec<u8>>,
}

impl View for EnginePaths {
    type V = EnginePathsView;

    open spec fn view(&self) -> EnginePathsView {
        EnginePathsView {
            unreal: opt_bytes_view(self.unreal),
            unity: opt_bytes_view(self.unity),
            godot: opt_bytes_view(self.godot),
        }
    }
}

impl Default for EnginePaths {
    /// The empty engine-path table.
    fn default() -> (r: EnginePaths)
        ensures
            r@ == EnginePathsView::spec_empty(),
    {
        EnginePaths { unreal: None, unity: None, godot: None }
    }
}

/// The global configuration: settings that apply to the user, not to one
/// project. Loaded once per command invocation; degrades to the default on a
/// missing or malformed file, since a first run has none.
pub struct GlobalConfig {
    pub engine_paths: EnginePaths,
}

impl View for GlobalConfig {
    type V = EnginePathsView;

    open spec fn view(&self) -> EnginePathsView {
        self.engine_paths@
    }
}

impl Default for GlobalConfig {
    /// The configuration with no engine path registered.
    fn default() -> (r: GlobalConfig)
        ensures
            r@ == EnginePathsView::spec_empty(),
    {
        GlobalConfig { engine_paths: EnginePaths::default() }
    }
}

/// The header line of the global configuration file.
pub open spec fn spec_header() -> Seq<u8> {
    seq![
        ('[' as u8), ('e' as u8), ('n' as u8), ('g' as u8), ('i' as u8), ('n' as u8), ('e' as u8),
        ('_' as u8), ('p' as u8), ('a' as u8), ('t' as u8), ('h' as u8), ('s' as u8), (']' as u8),
    ]
}

/// Renders the header line of the global configuration file.
fn header_bytes() -> (r: Vec<u8>)
    ensures
        r@ == spec_header(),
{
    let mut r: Vec<u8> = Vec::new();
    r.push('[' as u8);
    r.push('e' as u8);
    r.push('n' as u8);
    r.push('g' as u8);
    r.push('i' as u8);
    r.push('n' as u8);
    r.push('e' as u8);
    r.push('_' as u8);
    r.push('p' as u8);
    r.push('a' as u8);
    r.push('t' as u8);
    r.push('h' as u8);
    r.push('s' as u8);
    r.push(']' as u8);
    proof {
        assert(r@ =~= spec_header());
    }
    r
}

/// The rendered lines of one optional entry of the engine-path table.
pub open spec fn spec_opt_kv_lines(t: EngineType, p: Option<Seq<u8>>) -> Seq<Seq<u8>> {
    match p {
        None => Seq::<Seq<u8>>::empty(),
        Some(v) => seq![spec_kv_line(t.spec_key(), v)],
    }
}

/// The rendered bytes of one optional entry of the engine-path table.
pub open spec fn spec_opt_kv_chunk(t: EngineType, p: Option<Seq<u8>>) -> Seq<u8> {
    match p {
        None => Seq::<u8>::empty(),
        Some(v) => spec_kv_line(t.spec_key(), v) + seq![NL],
    }
}

impl EnginePathsView {
    /// The rendered engine-path table, one line per registered path, in the
    /// fixed order unreal, unity, godot.
    pub open spec fn spec_render(self) -> Seq<u8> {
        spec_opt_kv_chunk(EngineType::Unreal, self.unreal) + spec_opt_kv_chunk(
            EngineType::Unity,
            self.unity,
        ) + spec_opt_kv_chunk(EngineType::Godot, self.godot)
    }

    /// The whole global configuration file: the table header, then the
    /// rendered engine-path table.
    pub open spec fn spec_to_toml(self) -> Seq<u8> {
        spec_header() + seq![NL] + self.spec_render()
    }
}

/// What reading the lines after the header yields: the table built up from
/// `acc` by the key/value lines, or nothing when some line is not one.
pub open spec fn spec_parse_kv_lines(lines: Seq<Seq<u8>>, acc: EnginePathsView) -> Option<
    EnginePathsView,
>
    decreases lines.len(),
{
    if lines.len() == 0 {
        Some(acc)
    } else {
        let line = lines[0];
        let rest = lines.subrange(1, lines.len() as int);
        if line.len() == 0 {
            spec_parse_kv_lines(rest, acc)
        } else {
            match spec_parse_kv_line(line) {
                None => None,
                Some(kv) => if kv.0 == EngineType::Unreal.spec_key() {
                    spec_parse_kv_lines(rest, acc.spec_set(EngineType::Unreal, kv.1))
                } else if kv.0 == EngineType::Unity.spec_key() {
                    spec_parse_kv_lines(rest, acc.spec_set(EngineType::Unity, kv.1))
                } else if kv.0 == EngineType::Godot.spec_key() {
                    spec_parse_kv_lines(rest, acc.spec_set(EngineType::Godot, kv.1))
                } else {
                    None
                },
            }
        }
    }
}

/// What reading a global configuration file yields: the engine-path table,
/// or nothing when the text is not a rendering of one.
pub open spec fn spec_parse_global(text: Seq<u8>) -> Option<EnginePathsView> {
    let lines = spec_split_lines(text);
    if lines.len() == 0 {
        None
    } else if lines[0] != spec_header() {
        None
    } else {
        spec_parse_kv_lines(lines.subrange(1, lines.len() as int), EnginePathsView::spec_empty())
    }
}

/// What loading yields: the parsed table, or the empty one when the file is
/// absent or malformed.
pub open spec fn spec_load_global(contents: Option<Seq<u8>>) -> EnginePathsView {
    match contents {
        None => EnginePathsView::spec_empty(),
        Some(text) => match spec_parse_global(text) {
            None => EnginePathsView::spec_empty(),
            Some(p) => p,
        },
    }
}

impl GlobalConfig {
    /// The path registered for `t`, if any.
    pub fn engine_path(&self, t: EngineType) -> (r: &Option<Vec<u8>>)
        ensures
            opt_bytes_view(*r) == self@.spec_get(t),
    {
        match t {
            EngineType::Unreal => &self.engine_paths.unreal,
            EngineType::Unity => &self.engine_paths.unity,
            EngineType::Godot => &self.engine_paths.godot,
        }
    }

    /// Registers `path` for `t`, silently replacing a previous entry and
    /// keeping every other entry.
    pub fn set_engine_path(&mut self, t: EngineType, path: Vec<u8>)
        ensures
            final(self)@ == old(self)@.spec_set(t, path@),
    {
        match t {
            EngineType::Unreal => self.engine_paths.unreal = Some(path),
            EngineType::Unity => self.engine_paths.unity = Some(path),
            EngineType::Godot => self.engine_paths.godot = Some(path),
        }
        proof {
            assert(self@ =~= old(self)@.spec_set(t, path@));
        }
    }

    /// Renders the engine-path table alone, as `gph config engine` prints it.
    pub fn render_engine_paths(&self) -> (r: Vec<u8>)
        ensures
            r@ == self@.spec_render(),
    {
        let mut out: Vec<u8> = Vec::new();
        match &self.engine_paths.unreal {
            Some(p) => {
                let key = EngineType::Unreal.key_bytes();
                let line = kv_line(&key, p);
                crate::text::append_bytes(&mut out, &line);
                out.push(NL);
            },
            None => {},
        }
        match &self.engine_paths.unity {
            Some(p) => {
                let key = EngineType::Unity.key_bytes();
                let line = kv_line(&key, p);
                crate::text::append_bytes(&mut out, &line);
                out.push(NL);
            },
            None => {},
        }
        match &self.engine_paths.godot {
            Some(p) => {
                let key = EngineType::Godot.key_bytes();
                let line = kv_line(&key, p);
                crate::text::append_bytes(&mut out, &line);
                out.push(NL);
            },
            None => {},
        }
        proof {
            assert(out@ =~= self@.spec_render());
        }
        out
    }

    /// Renders the whole global configuration file, the bytes that saving
    /// writes to disk.
    pub fn to_toml_bytes(&self) -> (r: Vec<u8>)
        ensures
            r@ == self@.spec_to_toml(),
    {
        let mut out = header_bytes();
        out.push(NL);
        let table = self.render_engine_paths();
        crate::text::append_bytes(&mut out, &table);
        proof {
            assert(out@ =~= self@.spec_to_toml());
        }
        out
    }

    /// Reads a global configuration file back into the engine-path table.
    pub fn parse_toml_bytes(text: &Vec<u8>) -> (r: Option<GlobalConfig>)
        ensures
            match r {
                Some(c) => spec_parse_global(text@) == Some(c@),
                None => spec_parse_global(text@) is None,
            },
    {
        let lines = split_lines(text);
        let ghost lv = lines_view(lines@);
        if lines.len() == 0 {
            return None;
        }
        let header = header_bytes();
        if !bytes_eq(&lines[0], &header) {
            return None;
        }
        let key_unreal = EngineType::Unreal.key_bytes();
        let key_unity = EngineType::Unity.key_bytes();
        let key_godot = EngineType::Godot.key_bytes();
        let mut paths = EnginePaths::default();
        let n = lines.len();
        let mut i: usize = 1;
        proof {
            assert(lv.subrange(1int, n as int) =~= lv.subrange(i as int, n as int));
            assert(lv[0] == spec_header());
            assert(spec_parse_global(text@) == spec_parse_kv_lines(
                lv.subrange(1int, n as int),
                EnginePathsView::spec_empty(),
            ));
        }
        while i < n
            invariant
                1 <= i <= n == lv.len(),
                lv == lines_view(lines@),
                lv.len() == lines@.len(),
                forall|k: int| 0 <= k < lv.len() ==> lv[k] == (#[trigger] lines@[k])@,
                key_unreal@ == EngineType::Unreal.spec_key(),
                key_unity@ == EngineType::Unity.spec_key(),
                key_godot@ == EngineType::Godot.spec_key(),
                spec_parse_global(text@) == spec_parse_kv_lines(
                    lv.subrange(i as int, n as int),
                    paths@,
                ),
            decreases n - i,
        {
            let line = &lines[i];
            let ghost sub = lv.subrange(i as int, n as int);
            proof {
                assert(sub[0] == line@);
                assert(sub.subrange(1, sub.len() as int) =~= lv.subrange(i + 1, n as int));
            }
            if line.len() == 0 {
                i += 1;
                continue;
            }
            match parse_kv_line(line) {
                None => {
                    return None;
                },
                Some(kv) => {
                    let (k, v) = kv;
                    let ghost prev = paths@;
                    let ghost vv = v@;
                    if bytes_eq(&k, &key_unreal) {
                        paths.unreal = Some(v);
                        proof {
                            assert(paths@ =~= prev.spec_set(EngineType::Unreal, vv));
                        }
                    } else if bytes_eq(&k, &key_unity) {
                        paths.unity = Some(v);
                        proof {
                            assert(paths@ =~= prev.spec_set(EngineType::Unity, vv));
                        }
                    } else if bytes_eq(&k, &key_godot) {
                        paths.godot = Some(v);
                        proof {
                            assert(paths@ =~= prev.spec_set(EngineType::Godot, vv));
                        }
                    } else {
                        return None;
                    }
                },
            }
            i += 1;
        }
        proof {
            assert(lv.subrange(n as int, n as int) =~= Seq::<Seq<u8>>::empty());
        }
        Some(GlobalConfig { engine_paths: paths })
    }

    /// Loads the global configuration from the contents of its file, `None`
    /// standing for an absent file. A missing or malformed file yields the
    /// default, empty table: loading never fails the caller.
    pub fn load(contents: Option<&Vec<u8>>) -> (r: GlobalConfig)
        ensures
            r@ == spec_load_global(
                match contents {
                    None => None,
                    Some(text) => Some(text@),
                },
            ),
    {
        match contents {
            None => GlobalConfig::default(),
            Some(text) => match GlobalConfig::parse_toml_bytes(text) {
                None => GlobalConfig::default(),
                Some(c) => c,
            },
        }
    }
}

/// The key of the engine-type entry of a project configuration file.
pub open spec fn spec_engine_type_key() -> Seq<u8> {
    seq![
        ('e' as u8), ('n' as u8), ('g' as u8), ('i' as u8), ('n' as u8), ('e' as u8), ('_' as u8),
        ('t' as u8), ('y' as u8), ('p' as u8), ('e' as u8),
    ]
}

/// Renders the key of the engine-type entry.
fn engine_type_key_bytes() -> (r: Vec<u8>)
    ensures
        r@ == spec_engine_type_key(),
{
    let mut r: Vec<u8> = Vec::new();
    r.push('e' as u8);
    r.push('n' as u8);
    r.push('g' as u8);
    r.push('i' as u8);
    r.push('n' as u8);
    r.push('e' as u8);
    r.push('_' as u8);
    r.push('t' as u8);
    r.push('y' as u8);
    r.push('p' as u8);
    r.push('e' as u8);
    proof {
        assert(r@ =~= spec_engine_type_key());
    }
    r
}

/// Per-project settings: the engine type the project declares, if any.
/// Engine-specific build and package options in the same file are opaque to
/// the core and stay untouched in the file.
pub struct ProjectConfig {
    pub engine_type: Option<EngineType>,
}

/// What scanning the lines of a project configuration file yields:
/// `Some(declared engine type)` when the file is well formed, `None` when
/// its engine-type entry is malformed. Blank lines and comments are skipped;
/// the scan stops at the first table header, behind which only opaque
/// engine-specific options stand; any other entry is an opaque option.
pub open spec fn spec_scan_project_lines(lines: Seq<Seq<u8>>) -> Option<Option<EngineType>>
    decreases lines.len(),
{
    if lines.len() == 0 {
        Some(None)
    } else {
        let line = lines[0];
        let rest = lines.subrange(1, lines.len() as int);
        if line.len() == 0 || line[0] == HASH {
            spec_scan_project_lines(rest)
        } else if line[0] == LBRACKET {
            Some(None)
        } else {
            match spec_parse_kv_line(line) {
                Some(kv) => if kv.0 == spec_engine_type_key() {
                    match EngineType::spec_parse_name(kv.1) {
                        Some(t) => Some(Some(t)),
                        None => None,
                    }
                } else {
                    spec_scan_project_lines(rest)
                },
                None => if spec_starts_with(line, spec_engine_type_key()) {
                    None
                } else {
                    spec_scan_project_lines(rest)
                },
            }
        }
    }
}

/// What reading a project configuration file yields.
pub open spec fn spec_parse_project(text: Seq<u8>) -> Option<Option<EngineType>> {
    spec_scan_project_lines(spec_split_lines(text))
}

/// The rendered engine-type entry of a project configuration, as `init`
/// writes it: empty until an engine type is declared.
pub open spec fn spec_render_project(engine_type: Option<EngineType>) -> Seq<u8> {
    match engine_type {
        None => Seq::<u8>::empty(),
        Some(t) => spec_kv_line(spec_engine_type_key(), t.spec_name()) + seq![NL],
    }
}

impl ProjectConfig {
    /// Renders the project configuration, the bytes that `init` writes.
    pub fn to_toml_bytes(&self) -> (r: Vec<u8>)
        ensures
            r@ == spec_render_project(self.engine_type),
    {
        match self.engine_type {
            None => Vec::new(),
            Some(t) => {
                let key = engine_type_key_bytes();
                let name = t.name_bytes();
                let mut out = kv_line(&key, &name);
                out.push(NL);
                proof {
                    assert(out@ =~= spec_render_project(self.engine_type));
                }
                out
            },
        }
    }

    /// Reads the contents of a project configuration file, `None` standing
    /// for an absent file. Unlike the global configuration this does not
    /// default: building cannot proceed without the project's own settings,
    /// so an absent file is an error distinct from a malformed one.
    pub fn load(contents: Option<&Vec<u8>>) -> (r: Result<ProjectConfig, Error>)
        ensures
            match contents {
                None => r == Err::<ProjectConfig, Error>(Error::ProjectConfigMissing),
                Some(text) => match spec_parse_project(text@) {
                    None => r == Err::<ProjectConfig, Error>(Error::ProjectConfigInvalid),
                    Some(et) => r == Ok::<ProjectConfig, Error>(ProjectConfig { engine_type: et }),
                },
            },
    {
        let text = match contents {
            None => {
                return Err(Error::ProjectConfigMissing);
            },
            Some(text) => text,
        };
        let lines = split_lines(text);
        let ghost lv = lines_view(lines@);
        let key = engine_type_key_bytes();
        let n = lines.len();
        let mut i: usize = 0;
        proof {
            assert(lv.subrange(0int, n as int) =~= lv);
        }
        while i < n
            invariant
                0 <= i <= n == lv.len(),
                contents == Some(text),
                lv == lines_view(lines@),
                lv.len() == lines@.len(),
                forall|k: int| 0 <= k < lv.len() ==> lv[k] == (#[trigger] lines@[k])@,
                key@ == spec_engine_type_key(),
                spec_parse_project(text@) == spec_scan_project_lines(
                    lv.subrange(i as int, n as int),
                ),
            decreases n - i,
        {
            let line = &lines[i];
            let ghost sub = lv.subrange(i as int, n as int);
            proof {
                assert(sub[0] == line@);
                assert(sub.subrange(1, sub.len() as int) =~= lv.subrange(i + 1, n as int));
            }
            if line.len() == 0 || line[0] == HASH {
                i += 1;
                continue;
            }
            if line[0] == LBRACKET {
                return Ok(ProjectConfig { engine_type: None });
            }
            match parse_kv_line(line) {
                Some(kv) => {
                    let (k, v) = kv;
                    if bytes_eq(&k, &key) {
                        match EngineType::parse_name(&v) {
                            Some(t) => {
                                return Ok(ProjectConfig { engine_type: Some(t) });
                            },
                            None => {
                                return Err(Error::ProjectConfigInvalid);
                            },
                        }
                    }
                },
                None => {
                    if starts_with(line, &key) {
                        return Err(Error::ProjectConfigInvalid);
                    }
                },
            }
            i += 1;
        }
        proof {
            assert(lv.subrange(n as int, n as int) =~= Seq::<Seq<u8>>::empty());
        }
        Ok(ProjectConfig { engine_type: None })
    }
}

/// The engine-type key holds no `=`, no line separator, and starts with a
/// letter, so a rendered entry is read back as written.
proof fn lemma_engine_type_key_wf()
    ensures
        forall|j: int| 0 <= j < spec_engine_type_key().len() ==> spec_engine_type_key()[j] != EQ,
        has_no_newline(spec_engine_type_key()),
        spec_engine_type_key()[0] != HASH,
        spec_engine_type_key()[0] != LBRACKET,
{
}

/// Writing a project configuration and reading it back yields the engine
/// type that was written.
pub proof fn lemma_project_round_trip(engine_type: Option<EngineType>)
    ensures
        spec_parse_project(spec_render_project(engine_type)) == Some(engine_type),
{
    match engine_type {
        None => {
            assert(spec_split_lines(Seq::<u8>::empty()) =~= Seq::<Seq<u8>>::empty());
        },
        Some(t) => {
            let key = spec_engine_type_key();
            let line = spec_kv_line(key, t.spec_name());
            lemma_engine_type_key_wf();
            lemma_kv_line_no_newline(key, t.spec_name());
            lemma_join_single(line);
            assert(spec_render_project(engine_type) =~= spec_join_lines(seq![line]));
            assert(forall|k: int|
                0 <= k < seq![line].len() ==> has_no_newline(#[trigger] seq![line][k]));
            lemma_split_join_lines(seq![line]);
            assert(spec_split_lines(spec_render_project(engine_type)) == seq![line]);
            lemma_kv_line_round_trip(key, t.spec_name());
            crate::engine::lemma_name_round_trip(t);
            assert(line[0] == key[0]);
            assert(line.len() > 0);
            assert(seq![line][0] == line);
        },
    }
}

/// The key of an engine-path entry holds no `=` and no line separator.
proof fn lemma_key_wf(t: EngineType)
    ensures
        forall|j: int| 0 <= j < t.spec_key().len() ==> t.spec_key()[j] != EQ,
        has_no_newline(t.spec_key()),
{
}

/// Joining a single line is that line with its terminator.
proof fn lemma_join_single(l: Seq<u8>)
    ensures
        spec_join_lines(seq![l]) == l + seq![NL],
{
    assert(seq![l].subrange(1, 1) =~= Seq::<Seq<u8>>::empty());
    assert(spec_join_lines(Seq::<Seq<u8>>::empty()) == Seq::<u8>::empty());
    assert(seq![l][0] == l);
    assert(spec_join_lines(seq![l]) == l + seq![NL] + spec_join_lines(seq![l].subrange(1, 1)));
    assert(l + seq![NL] + Seq::<u8>::empty() =~= l + seq![NL]);
}

/// Every rendered line of one optional engine-path entry holds no line
/// separator.
proof fn lemma_opt_kv_lines_no_newline(t: EngineType, p: Option<Seq<u8>>)
    ensures
        forall|k: int|
            0 <= k < spec_opt_kv_lines(t, p).len() ==> has_no_newline(
                #[trigger] spec_opt_kv_lines(t, p)[k],
            ),
{
    match p {
        None => {},
        Some(v) => {
            lemma_key_wf(t);
            lemma_kv_line_no_newline(t.spec_key(), v);
            assert(spec_opt_kv_lines(t, p)[0] == spec_kv_line(t.spec_key(), v));
        },
    }
}

/// Joining the rendered lines of one optional entry gives its rendered bytes.
proof fn lemma_opt_kv_join(t: EngineType, p: Option<Seq<u8>>)
    ensures
        spec_join_lines(spec_opt_kv_lines(t, p)) == spec_opt_kv_chunk(t, p),
{
    match p {
        None => {},
        Some(v) => {
            lemma_join_single(spec_kv_line(t.spec_key(), v));
        },
    }
}

/// Reading the rendered lines of one optional entry followed by `rest` is
/// reading `rest` from the table with that entry merged in.
proof fn lemma_parse_opt_kv_lines(
    t: EngineType,
    p: Option<Seq<u8>>,
    rest: Seq<Seq<u8>>,
    acc: EnginePathsView,
)
    ensures
        spec_parse_kv_lines(spec_opt_kv_lines(t, p) + rest, acc) == spec_parse_kv_lines(
            rest,
            acc.spec_merge(t, p),
        ),
{
    match p {
        None => {
            assert(spec_opt_kv_lines(t, p) + rest =~= rest);
        },
        Some(v) => {
            let key = t.spec_key();
            lemma_key_wf(t);
            lemma_kv_line_round_trip(key, v);
            let line = spec_kv_line(key, v);
            let lines = spec_opt_kv_lines(t, p) + rest;
            assert(lines[0] == line);
            assert(lines.subrange(1, lines.len() as int) =~= rest);
            assert(line.len() > 0);
            assert(EngineType::Unity.spec_key()[2] != EngineType::Unreal.spec_key()[2]);
            assert(EngineType::Godot.spec_key()[0] != EngineType::Unreal.spec_key()[0]);
            assert(EngineType::Godot.spec_key()[0] != EngineType::Unity.spec_key()[0]);
        },
    }
}

/// Saving the global configuration and loading what was written reproduces
/// the same engine-path mapping, whatever the registered paths hold.
pub proof fn lemma_save_load_round_trip(p: EnginePathsView)
    ensures
        spec_parse_global(p.spec_to_toml()) == Some(p),
        spec_load_global(Some(p.spec_to_toml())) == p,
{
    let h = spec_header();
    let lu = spec_opt_kv_lines(EngineType::Unreal, p.unreal);
    let li = spec_opt_kv_lines(EngineType::Unity, p.unity);
    let lg = spec_opt_kv_lines(EngineType::Godot, p.godot);
    let lines = seq![h] + lu + (li + lg);
    assert(lines =~= seq![h] + (lu + (li + lg)));
    lemma_join_lines_concat(seq![h], lu + (li + lg));
    lemma_join_lines_concat(lu, li + lg);
    lemma_join_lines_concat(li, lg);
    lemma_join_single(h);
    lemma_opt_kv_join(EngineType::Unreal, p.unreal);
    lemma_opt_kv_join(EngineType::Unity, p.unity);
    lemma_opt_kv_join(EngineType::Godot, p.godot);
    assert(p.spec_to_toml() =~= spec_join_lines(lines));
    lemma_opt_kv_lines_no_newline(EngineType::Unreal, p.unreal);
    lemma_opt_kv_lines_no_newline(EngineType::Unity, p.unity);
    lemma_opt_kv_lines_no_newline(EngineType::Godot, p.godot);
    assert forall|k: int| 0 <= k < lines.len() implies has_no_newline(#[trigger] lines[k]) by {
        if k == 0 {
            assert(lines[k] == h);
        } else if k < 1 + lu.len() {
            assert(lines[k] == lu[k - 1]);
        } else if k < 1 + lu.len() + li.len() {
            assert(lines[k] == li[k - 1 - lu.len()]);
        } else {
            assert(lines[k] == lg[k - 1 - lu.len() - li.len()]);
        }
    }
    lemma_split_join_lines(lines);
    assert(spec_split_lines(p.spec_to_toml()) == lines);
    assert(lines[0] == h);
    assert(lines.subrange(1, lines.len() as int) =~= lu + (li + lg));
    let acc0 = EnginePathsView::spec_empty();
    let acc1 = acc0.spec_merge(EngineType::Unreal, p.unreal);
    let acc2 = acc1.spec_merge(EngineType::Unity, p.unity);
    let acc3 = acc2.spec_merge(EngineType::Godot, p.godot);
    lemma_parse_opt_kv_lines(EngineType::Unreal, p.unreal, li + lg, acc0);
    lemma_parse_opt_kv_lines(EngineType::Unity, p.unity, lg, acc1);
    lemma_parse_opt_kv_lines(EngineType::Godot, p.godot, Seq::<Seq<u8>>::empty(), acc2);
    assert(lg =~= spec_opt_kv_lines(EngineType::Godot, p.godot) + Seq::<Seq<u8>>::empty());
    assert(spec_parse_kv_lines(Seq::<Seq<u8>>::empty(), acc3) == Some(acc3));
    assert(acc3 =~= p);
}

} // verus!
