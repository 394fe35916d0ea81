//! Where progress is saved, and whether it needs saving.

use vstd::pervasive::cloned;
use vstd::prelude::*;

use crate::config::SaveStrategy;
use crate::foglet::{ContextSource, FogletContext};
use crate::text::{chars_of, opt_str, opt_text, push_char};

verus! {

broadcast use vstd::string::group_string_axioms;

/// Name of the file in the save directory.
pub const SAVE_FILENAME: &'static str = "save.json";

/// Environment variable that names the save directory.
pub const SAVE_DIR_ENV: &'static str = "FGK_SAVE_DIR";

/// Directory of all games on a host.
pub const PROD_SAVE_ROOT: &'static str = "/srv/foglet/doors";

/// Save directory on a developer's own machine.
pub const LOCAL_DEV_SAVE_DIR: &'static str = ".fgk/saves/local-dev";

/// Directory for a player whom the host did not name.
pub const ANONYMOUS_USER_SEGMENT: &'static str = "anonymous";

/// Directory of the saves of a game.
pub const SAVES_SEGMENT: &'static str = "saves";

/// Why there is no save path.
#[derive(Debug, Clone, Copy, PartialEq, Eq, Structural)]
pub enum SavePathError {
    /// The game has no name.
    EmptySlug,
}

impl SavePathError {
    /// The message for the operator.
    pub fn message(&self) -> (r: String)
        ensures
            r@ == "save path resolution requires a non-empty slug"@,
    {
        "save path resolution requires a non-empty slug".to_string()
    }
}

/// What decides where progress is saved.
#[derive(Debug, Clone, Copy)]
pub struct SavePathInputs<'a> {
    /// The name of the game's directory.
    pub slug: &'a str,
    pub strategy: SaveStrategy,
    pub context: &'a FogletContext,
    /// A directory given on the command line.
    pub cli_override: Option<&'a str>,
}

/// A path below another, in the syntax of Unix. An absolute path stays as it is.
pub open spec fn joined(base: Seq<char>, name: Seq<char>) -> Seq<char> {
    if base.len() == 0 || (name.len() > 0 && name[0] == '/') {
        name
    } else if base.last() == '/' {
        base + name
    } else {
        base.push('/') + name
    }
}

/// Join a path to another.
pub fn join_path(base: &str, name: &str) -> (r: String)
    ensures
        r@ == joined(base@, name@),
{
    let above: Vec<char> = chars_of(base);
    let below: Vec<char> = chars_of(name);
    if above.len() == 0 || (below.len() > 0 && below[0] == '/') {
        return name.to_string();
    }
    let mut out: String = base.to_string();
    if above[above.len() - 1] != '/' {
        push_char(&mut out, '/');
    }
    out.append(name);
    out
}

/// The name that a player's directory has.
pub open spec fn user_segment(context: FogletContext) -> Seq<char> {
    match context.user_id {
        Some(id) => if id@.len() > 0 {
            id@
        } else {
            ANONYMOUS_USER_SEGMENT@
        },
        None => ANONYMOUS_USER_SEGMENT@,
    }
}

/// The save path where neither the command line nor the environment names a
/// directory.
pub open spec fn default_path(slug: Seq<char>, context: FogletContext) -> Seq<char> {
    match context.source {
        ContextSource::LocalDev => joined(LOCAL_DEV_SAVE_DIR@, SAVE_FILENAME@),
        _ => joined(
            joined(
                joined(joined(PROD_SAVE_ROOT@, slug), SAVES_SEGMENT@),
                user_segment(context),
            ),
            SAVE_FILENAME@,
        ),
    }
}

/// Whether the environment is consulted at all.
pub open spec fn asks_environment(inputs: SavePathInputs) -> bool {
    inputs.slug@.len() > 0 && inputs.strategy != SaveStrategy::Disabled && inputs.cli_override
        is None
}

/// The save path for an environment that names `env` as the save directory. An
/// empty name is no name. A game that does not save has no path.
pub open spec fn save_location(inputs: SavePathInputs, env: Option<Seq<char>>) -> Result<
    Option<Seq<char>>,
    SavePathError,
> {
    if inputs.slug@.len() == 0 {
        Err(SavePathError::EmptySlug)
    } else if inputs.strategy == SaveStrategy::Disabled {
        Ok(None)
    } else if inputs.cli_override is Some {
        Ok(Some(joined(inputs.cli_override->0@, SAVE_FILENAME@)))
    } else if env is Some && env->0.len() > 0 {
        Ok(Some(joined(env->0, SAVE_FILENAME@)))
    } else {
        Ok(Some(default_path(inputs.slug@, *inputs.context)))
    }
}

/// The characters of a save path.
pub open spec fn path_view(path: Result<Option<String>, SavePathError>) -> Result<
    Option<Seq<char>>,
    SavePathError,
> {
    match path {
        Ok(Some(p)) => Ok(Some(p@)),
        Ok(None) => Ok(None),
        Err(e) => Err(e),
    }
}

/// The characters of an optional text.
pub open spec fn env_view(env: Option<String>) -> Option<Seq<char>> {
    match env {
        Some(s) => Some(s@),
        None => None,
    }
}

/// Decide where progress is saved, given the directory that the environment
/// names.
pub fn save_path_for(inputs: &SavePathInputs<'_>, env: Option<String>) -> (r: Result<
    Option<String>,
    SavePathError,
>)
    ensures
        path_view(r) == save_location(*inputs, env_view(env)),
{
    if inputs.slug.is_empty() {
        return Err(SavePathError::EmptySlug);
    }
    if inputs.strategy == SaveStrategy::Disabled {
        return Ok(None);
    }
    match inputs.cli_override {
        Some(dir) => {
            return Ok(Some(join_path(dir, SAVE_FILENAME)));
        },
        None => {},
    }
    match opt_str(&env) {
        Some(dir) => {
            if !dir.is_empty() {
                return Ok(Some(join_path(dir, SAVE_FILENAME)));
            }
        },
        None => {},
    }
    let path: String = match inputs.context.source {
        ContextSource::ContextFile | ContextSource::Env => {
            let user: &str = match opt_str(&inputs.context.user_id) {
                Some(id) => if id.is_empty() {
                    ANONYMOUS_USER_SEGMENT
                } else {
                    id
                },
                None => ANONYMOUS_USER_SEGMENT,
            };
            let game: String = join_path(PROD_SAVE_ROOT, inputs.slug);
            let saves: String = join_path(game.as_str(), SAVES_SEGMENT);
            let own: String = join_path(saves.as_str(), user);
            join_path(own.as_str(), SAVE_FILENAME)
        },
        ContextSource::LocalDev => join_path(LOCAL_DEV_SAVE_DIR, SAVE_FILENAME),
    };
    Ok(Some(path))
}

/// Decide where progress is saved. The environment is asked for
/// [`SAVE_DIR_ENV`], and only where the answer matters.
pub fn resolve_save_path<F>(inputs: &SavePathInputs<'_>, getenv: F) -> (r: Result<
    Option<String>,
    SavePathError,
>) where F: Fn(&str) -> Option<String>
    requires
        asks_environment(*inputs) ==> forall|name: &str|
            name@ == SAVE_DIR_ENV@ ==> #[trigger] call_requires(getenv, (name,)),
    ensures
        !asks_environment(*inputs) ==> path_view(r) == save_location(*inputs, None),
        asks_environment(*inputs) ==> exists|name: &str, env: Option<String>|
            #![trigger call_ensures(getenv, (name,), env)]
            name@ == SAVE_DIR_ENV@ && call_ensures(getenv, (name,), env) && path_view(r)
                == save_location(*inputs, env_view(env)),
{
    if inputs.slug.is_empty() || inputs.strategy == SaveStrategy::Disabled
        || inputs.cli_override.is_some() {
        return save_path_for(inputs, None);
    }
    let env: Option<String> = getenv(SAVE_DIR_ENV);
    save_path_for(inputs, env)
}

/// Whether a text ends with another.
pub open spec fn ends_with(s: Seq<char>, end: Seq<char>) -> bool {
    s.len() >= end.len() && s.skip(s.len() - end.len()) == end
}

/// There is no save path exactly where the game does not save, and every save
/// path ends in the name of the save file.
pub proof fn save_paths_name_the_file(inputs: SavePathInputs, env: Option<Seq<char>>)
    requires
        inputs.slug@.len() > 0,
    ensures
        save_location(inputs, env) is Ok,
        save_location(inputs, env)->Ok_0 is None <==> inputs.strategy == SaveStrategy::Disabled,
        save_location(inputs, env)->Ok_0 is Some ==> ends_with(
            save_location(inputs, env)->Ok_0->0,
            SAVE_FILENAME@,
        ),
{
    assert forall|base: Seq<char>| ends_with(#[trigger] joined(base, SAVE_FILENAME@), SAVE_FILENAME@) by {
        let path = joined(base, SAVE_FILENAME@);
        assert(path.skip(path.len() - SAVE_FILENAME@.len()) =~= SAVE_FILENAME@);
    }
}

/// Whether two directory names differ in nothing but a slash at the end of one.
pub open spec fn same_but_for_slash(u: Seq<char>, v: Seq<char>) -> bool {
    ||| u == v.push('/') && v.last() != '/'
    ||| v == u.push('/') && u.last() != '/'
}

/// On a host, players with different names have different save paths. Names that
/// are absolute paths, and names that differ only in a slash at the end, are
/// another matter.
pub proof fn players_do_not_share_saves(slug: Seq<char>, a: FogletContext, b: FogletContext)
    requires
        a.source != ContextSource::LocalDev,
        b.source != ContextSource::LocalDev,
        user_segment(a) != user_segment(b),
        user_segment(a)[0] != '/',
        user_segment(b)[0] != '/',
        !same_but_for_slash(user_segment(a), user_segment(b)),
    ensures
        default_path(slug, a) != default_path(slug, b),
{
    reveal_strlit("save.json");
    reveal_strlit("saves");
    reveal_strlit("anonymous");
    let file = SAVE_FILENAME@;
    let base = joined(joined(PROD_SAVE_ROOT@, slug), SAVES_SEGMENT@);
    let u = user_segment(a);
    let v = user_segment(b);
    assert(u.len() > 0 && v.len() > 0);
    assert(base.len() > 0 && base.last() == 's');
    let p = base.push('/') + u;
    let q = base.push('/') + v;
    assert(p == joined(base, u));
    assert(q == joined(base, v));
    assert(p.last() == u.last());
    assert(q.last() == v.last());
    let x = if u.last() == '/' {
        u
    } else {
        u.push('/')
    };
    let y = if v.last() == '/' {
        v
    } else {
        v.push('/')
    };
    assert(default_path(slug, a) =~= base.push('/') + x + file);
    assert(default_path(slug, b) =~= base.push('/') + y + file);
    if default_path(slug, a) == default_path(slug, b) {
        assert(x.len() == y.len());
        let n = base.len() as int + 1;
        let m = n + x.len();
        assert(x =~= default_path(slug, a).subrange(n, m));
        assert(y =~= default_path(slug, b).subrange(n, m));
        assert(x == y);
        if u.last() != '/' && v.last() != '/' {
            assert(u =~= x.drop_last());
            assert(v =~= y.drop_last());
        }
    }
}

/// The save path of a player on a host, and of a developer, names a file below a
/// directory, unless the player's name is an absolute path or ends in a slash or
/// a needless dot.
pub proof fn save_files_lie_in_directories(slug: Seq<char>, context: FogletContext) -> (dir: Seq<
    char,
>)
    requires
        user_segment(context)[0] != '/',
        directory_name(user_segment(context)),
        user_segment(context) != "."@,
    ensures
        default_path(slug, context) == joined(dir, SAVE_FILENAME@),
        directory_name(dir),
        bare_name(SAVE_FILENAME@),
{
    reveal_strlit("save.json");
    reveal_strlit("saves");
    reveal_strlit("anonymous");
    reveal_strlit(".fgk/saves/local-dev");
    reveal_strlit("/.");
    reveal_strlit(".");
    reveal_strlit("..");
    let dir = match context.source {
        ContextSource::LocalDev => LOCAL_DEV_SAVE_DIR@,
        _ => joined(joined(joined(PROD_SAVE_ROOT@, slug), SAVES_SEGMENT@), user_segment(context)),
    };
    let u = user_segment(context);
    assert(dir.last() != '/');
    if ends_with(dir, "/."@) {
        assert(dir.skip(dir.len() - 2)[0] == '/' && dir.skip(dir.len() - 2)[1] == '.');
        if context.source != ContextSource::LocalDev {
            if u.len() == 1 {
                assert(u =~= "."@);
            } else {
                assert(u.skip(u.len() - 2) =~= "/."@);
            }
        }
    }
    dir
}

/// Why a save file could not be read or written. The text is what the system
/// said.
#[derive(Debug, Clone, PartialEq, Eq)]
pub enum SaveIoError {
    /// The path names no directory.
    NoParent { path: String },
    /// The directory could not be made.
    Mkdir(String),
    /// The temporary file could not be written.
    Write(String),
    /// The temporary file could not be moved into place.
    Persist(String),
    /// The file could not be read.
    Read(String),
    /// The value could not be turned into JSON.
    Serialize(String),
    /// The file does not hold the JSON of a value.
    Deserialize(String),
}

/// How an error reads.
pub open spec fn io_error_text(error: SaveIoError) -> Seq<char> {
    match error {
        SaveIoError::NoParent { path } => "save path has no parent directory: "@ + path@,
        SaveIoError::Mkdir(s) => "creating save parent directory failed: "@ + s@,
        SaveIoError::Write(s) => "writing save file failed: "@ + s@,
        SaveIoError::Persist(s) => "renaming temp save into place failed: "@ + s@,
        SaveIoError::Read(s) => "reading save file failed: "@ + s@,
        SaveIoError::Serialize(s) => "serializing save state to JSON failed: "@ + s@,
        SaveIoError::Deserialize(s) => "deserializing save state from JSON failed: "@ + s@,
    }
}

impl SaveIoError {
    /// The message for the operator.
    pub fn message(&self) -> (r: String)
        ensures
            r@ == io_error_text(*self),
    {
        let (lead, detail): (&str, &str) = match self {
            SaveIoError::NoParent { path } => (
                "save path has no parent directory: ",
                path.as_str(),
            ),
            SaveIoError::Mkdir(s) => ("creating save parent directory failed: ", s.as_str()),
            SaveIoError::Write(s) => ("writing save file failed: ", s.as_str()),
            SaveIoError::Persist(s) => ("renaming temp save into place failed: ", s.as_str()),
            SaveIoError::Read(s) => ("reading save file failed: ", s.as_str()),
            SaveIoError::Serialize(s) => ("serializing save state to JSON failed: ", s.as_str()),
            SaveIoError::Deserialize(s) => (
                "deserializing save state from JSON failed: ",
                s.as_str(),
            ),
        };
        let mut out: String = lead.to_string();
        out.append(detail);
        out
    }
}

/// What `std::path::Path::parent` makes of a path in the syntax of Unix: the
/// path without its last component, where it has one.
pub uninterp spec fn path_parent(path: Seq<char>) -> Option<Seq<char>>;

/// Whether a text names one file, without a directory.
pub open spec fn bare_name(name: Seq<char>) -> bool {
    name.len() > 0 && !name.contains('/') && name != "."@ && name != ".."@
}

/// Whether a text names a directory without a slash or a needless dot at its
/// end.
pub open spec fn directory_name(dir: Seq<char>) -> bool {
    dir.len() > 0 && dir.last() != '/' && !ends_with(dir, "/."@)
}

/// The directory that a path lies in, from `std::path::Path::parent`, with paths
/// in the syntax of Unix. Other systems split paths in other ways, and what
/// follows is not said of them.
///
/// The empty path has no parent. That of a bare name is the empty path. That of a
/// bare name below a directory is the directory. Of other paths it is only said
/// that the same path always has the same parent.
#[verifier::external_body]
fn parent_of(path: &str) -> (r: Option<String>)
    ensures
        env_view(r) == path_parent(path@),
        path@.len() == 0 ==> r is None,
        bare_name(path@) ==> r is Some && r->0@.len() == 0,
        forall|dir: Seq<char>, name: Seq<char>|
            path@ == #[trigger] joined(dir, name) && directory_name(dir) && bare_name(name)
                ==> env_view(r) == Some(dir),
{
    std::path::Path::new(path).parent().map(|parent| parent.to_string_lossy().into_owned())
}

/// The directory to write in, given what the path's parent is. A path without a
/// directory is refused.
pub fn checked_parent(path: &str, parent: Option<String>) -> (r: Result<String, SaveIoError>)
    ensures
        match r {
            Ok(dir) => parent == Some(dir) && dir@.len() > 0,
            Err(error) => (parent is None || parent->0@.len() == 0) && (error matches
                SaveIoError::NoParent { path: given } && given@ == path@),
        },
{
    match parent {
        Some(dir) => {
            if dir.as_str().is_empty() {
                Err(SaveIoError::NoParent { path: path.to_string() })
            } else {
                Ok(dir)
            }
        },
        None => Err(SaveIoError::NoParent { path: path.to_string() }),
    }
}

/// The directory that a save file is written in, with its temporary file beside
/// it.
pub fn save_directory(path: &str) -> (r: Result<String, SaveIoError>)
    ensures
        match r {
            Ok(dir) => path_parent(path@) == Some(dir@) && dir@.len() > 0,
            Err(error) => (path_parent(path@) is None || path_parent(path@)->0.len() == 0) && (
            error matches SaveIoError::NoParent { path: given } && given@ == path@),
        },
        path@.len() == 0 || bare_name(path@) ==> r is Err,
        forall|dir: Seq<char>, name: Seq<char>|
            path@ == #[trigger] joined(dir, name) && directory_name(dir) && bare_name(name) ==> (
            r matches Ok(d) && d@ == dir),
{
    checked_parent(path, parent_of(path))
}

/// A step of writing a save file so that the file is never seen half-written.
#[derive(Debug, Clone, Copy, PartialEq, Eq, Structural)]
pub enum WriteStep {
    /// Make the directory.
    MakeDirectory,
    /// Make a temporary file in the directory.
    CreateTemporary,
    /// Write the value into the temporary file, as JSON.
    Serialize,
    /// Hand the bytes to the system.
    Flush,
    /// Have the system put them on the disk.
    Sync,
    /// Move the temporary file into place.
    Rename,
}

/// The step after a step that went well; after the last there is none.
pub open spec fn step_after(step: WriteStep) -> Option<WriteStep> {
    match step {
        WriteStep::MakeDirectory => Some(WriteStep::CreateTemporary),
        WriteStep::CreateTemporary => Some(WriteStep::Serialize),
        WriteStep::Serialize => Some(WriteStep::Flush),
        WriteStep::Flush => Some(WriteStep::Sync),
        WriteStep::Sync => Some(WriteStep::Rename),
        WriteStep::Rename => None,
    }
}

/// The error for a step that failed.
pub open spec fn step_error(step: WriteStep, said: String) -> SaveIoError {
    match step {
        WriteStep::MakeDirectory => SaveIoError::Mkdir(said),
        WriteStep::CreateTemporary | WriteStep::Flush | WriteStep::Sync => SaveIoError::Write(said),
        WriteStep::Serialize => SaveIoError::Serialize(said),
        WriteStep::Rename => SaveIoError::Persist(said),
    }
}

/// Writing a save file.
#[derive(Debug, PartialEq, Eq)]
pub enum AtomicWrite {
    /// A step has to be taken.
    Step(WriteStep),
    /// The file is written, or could not be.
    Finished(Result<(), SaveIoError>),
}

impl AtomicWrite {
    /// Start to write a file. A path without a directory is refused; otherwise
    /// the directory is handed back.
    pub fn start(path: &str) -> (r: Result<(String, AtomicWrite), SaveIoError>)
        ensures
            match r {
                Ok((dir, write)) => path_parent(path@) == Some(dir@) && dir@.len() > 0 && write
                    == AtomicWrite::Step(WriteStep::MakeDirectory),
                Err(error) => (path_parent(path@) is None || path_parent(path@)->0.len() == 0) && (
                error matches SaveIoError::NoParent { path: given } && given@ == path@),
            },
            path@.len() == 0 || bare_name(path@) ==> r is Err,
            forall|dir: Seq<char>, name: Seq<char>|
                path@ == #[trigger] joined(dir, name) && directory_name(dir) && bare_name(name)
                    ==> (r matches Ok((d, _)) && d@ == dir),
    {
        match save_directory(path) {
            Ok(dir) => Ok((dir, AtomicWrite::Step(WriteStep::MakeDirectory))),
            Err(error) => Err(error),
        }
    }

    /// Go on with the outcome of the step. The first step that fails ends the
    /// writing.
    pub fn step(self, outcome: Result<(), String>) -> (r: AtomicWrite)
        requires
            self is Step,
        ensures
            match outcome {
                Err(said) => r == AtomicWrite::Finished(Err(step_error(self->Step_0, said))),
                Ok(()) => match step_after(self->Step_0) {
                    Some(next) => r == AtomicWrite::Step(next),
                    None => r matches AtomicWrite::Finished(Ok(_)),
                },
            },
    {
        match self {
            AtomicWrite::Step(step) => match outcome {
                Err(said) => AtomicWrite::Finished(
                    Err(
                        match step {
                            WriteStep::MakeDirectory => SaveIoError::Mkdir(said),
                            WriteStep::CreateTemporary | WriteStep::Flush | WriteStep::Sync => {
                                SaveIoError::Write(said)
                            },
                            WriteStep::Serialize => SaveIoError::Serialize(said),
                            WriteStep::Rename => SaveIoError::Persist(said),
                        },
                    ),
                ),
                Ok(()) => match step {
                    WriteStep::MakeDirectory => AtomicWrite::Step(WriteStep::CreateTemporary),
                    WriteStep::CreateTemporary => AtomicWrite::Step(WriteStep::Serialize),
                    WriteStep::Serialize => AtomicWrite::Step(WriteStep::Flush),
                    WriteStep::Flush => AtomicWrite::Step(WriteStep::Sync),
                    WriteStep::Sync => AtomicWrite::Step(WriteStep::Rename),
                    WriteStep::Rename => AtomicWrite::Finished(Ok(())),
                },
            },
            AtomicWrite::Finished(result) => AtomicWrite::Finished(result),
        }
    }
}

/// The steps that were taken before a step.
pub open spec fn steps_before(step: WriteStep) -> Seq<WriteStep> {
    match step {
        WriteStep::MakeDirectory => seq![],
        WriteStep::CreateTemporary => seq![WriteStep::MakeDirectory],
        WriteStep::Serialize => seq![WriteStep::MakeDirectory, WriteStep::CreateTemporary],
        WriteStep::Flush => seq![
            WriteStep::MakeDirectory,
            WriteStep::CreateTemporary,
            WriteStep::Serialize,
        ],
        WriteStep::Sync => seq![
            WriteStep::MakeDirectory,
            WriteStep::CreateTemporary,
            WriteStep::Serialize,
            WriteStep::Flush,
        ],
        WriteStep::Rename => seq![
            WriteStep::MakeDirectory,
            WriteStep::CreateTemporary,
            WriteStep::Serialize,
            WriteStep::Flush,
            WriteStep::Sync,
        ],
    }
}

/// The file in place is touched by the last step alone, once the whole value is
/// on the disk: every other step comes before it, and none after.
pub proof fn the_file_is_replaced_last(step: WriteStep)
    ensures
        step_after(step) is None <==> step == WriteStep::Rename,
        steps_before(WriteStep::Rename).contains(step) <==> step != WriteStep::Rename,
        step_after(step) is Some ==> steps_before(step_after(step)->0) == steps_before(step).push(
            step,
        ),
{
    let all = steps_before(WriteStep::Rename);
    assert(all.len() == 5);
    assert(all[0] == WriteStep::MakeDirectory);
    assert(all[1] == WriteStep::CreateTemporary);
    assert(all[2] == WriteStep::Serialize);
    assert(all[3] == WriteStep::Flush);
    assert(all[4] == WriteStep::Sync);
    if step_after(step) is Some {
        assert(steps_before(step_after(step)->0) =~= steps_before(step).push(step));
    }
}

/// What came of reading a save file.
#[derive(Debug, PartialEq, Eq)]
pub enum ReadEvent<T> {
    /// There is no such file.
    Missing,
    /// The file could not be opened or read; this is what the system said.
    Unreadable(String),
    /// The file does not hold a value; this is what the parser said.
    Malformed(String),
    /// The value in the file.
    Parsed(T),
}

/// What reading a save file comes to.
pub open spec fn read_result<T>(event: ReadEvent<T>) -> Result<Option<T>, SaveIoError> {
    match event {
        ReadEvent::Missing => Ok(None),
        ReadEvent::Unreadable(said) => Err(SaveIoError::Read(said)),
        ReadEvent::Malformed(said) => Err(SaveIoError::Deserialize(said)),
        ReadEvent::Parsed(value) => Ok(Some(value)),
    }
}

/// The outcome of reading a save file. Only a file that is not there counts as
/// no save; any other trouble is an error.
pub fn read_outcome<T>(event: ReadEvent<T>) -> (r: Result<Option<T>, SaveIoError>)
    ensures
        r == read_result(event),
{
    match event {
        ReadEvent::Missing => Ok(None),
        ReadEvent::Unreadable(said) => Err(SaveIoError::Read(said)),
        ReadEvent::Malformed(said) => Err(SaveIoError::Deserialize(said)),
        ReadEvent::Parsed(value) => Ok(Some(value)),
    }
}

/// A value, and whether it changed since it was last saved.
#[derive(Debug)]
pub struct SaveSlot<T> {
    inner: T,
    dirty: bool,
}

/// Whether a slot is as it is left when a value is put into it.
pub open spec fn rewritten<T>(slot: SaveSlot<T>, value: T) -> bool {
    slot.value() == value && slot.changed()
}

/// Whether a slot is as it is left when its value was written, or could not be.
pub open spec fn written_out<T>(
    before: SaveSlot<T>,
    written: Result<(), SaveIoError>,
    after: SaveSlot<T>,
) -> bool {
    after.value() == before.value() && after.changed() == (before.changed() && written is Err)
}

/// Whether a slot, or none, or an error is what comes of reading a file.
pub open spec fn loaded_from<T>(
    read: Result<Option<T>, SaveIoError>,
    loaded: Result<Option<SaveSlot<T>>, SaveIoError>,
) -> bool {
    match read {
        Ok(Some(value)) => loaded matches Ok(Some(slot)) && slot.value() == value
            && !slot.changed(),
        Ok(None) => loaded matches Ok(None),
        Err(error) => loaded == Err::<Option<SaveSlot<T>>, SaveIoError>(error),
    }
}

/// Whether a slot or an error is what comes of reading a file that need not be there.
pub open spec fn loaded_or_default<T: Default>(
    read: Result<Option<T>, SaveIoError>,
    loaded: Result<SaveSlot<T>, SaveIoError>,
) -> bool {
    match read {
        Ok(Some(value)) => loaded matches Ok(slot) && slot.value() == value && !slot.changed(),
        Ok(None) => loaded matches Ok(slot) && call_ensures(T::default, (), slot.value())
            && !slot.changed(),
        Err(error) => loaded == Err::<SaveSlot<T>, SaveIoError>(error),
    }
}

impl<T> SaveSlot<T> {
    /// The value.
    pub closed spec fn value(self) -> T {
        self.inner
    }

    /// Whether the value may differ from what was saved.
    pub closed spec fn changed(self) -> bool {
        self.dirty
    }

    /// A slot that needs no saving.
    pub fn new(value: T) -> (r: SaveSlot<T>)
        ensures
            r.value() == value,
            !r.changed(),
    {
        SaveSlot { inner: value, dirty: false }
    }

    /// Look at the value.
    pub fn borrow(&self) -> (r: &T)
        ensures
            *r == self.value(),
    {
        &self.inner
    }

    /// Take the value to change it. The slot needs saving from then on, whether
    /// or not anything is changed.
    pub fn borrow_mut(&mut self) -> (r: &mut T)
        ensures
            *r == old(self).value(),
            rewritten(*final(self), *final(r)),
    {
        self.dirty = true;
        &mut self.inner
    }

    /// A copy of the value.
    pub fn snapshot(&self) -> (r: T) where T: Clone
        ensures
            cloned(self.value(), r),
    {
        self.inner.clone()
    }

    /// Replace the value. The slot needs saving from then on.
    pub fn apply(&mut self, value: T)
        ensures
            rewritten(*final(self), value),
    {
        self.inner = value;
        self.dirty = true;
    }

    /// Whether the slot needs saving.
    pub fn is_dirty(&self) -> (r: bool)
        ensures
            r == self.changed(),
    {
        self.dirty
    }

    /// Note the outcome of writing the value. Only a value that was written
    /// needs no more saving.
    pub fn save(&mut self, written: Result<(), SaveIoError>) -> (r: Result<(), SaveIoError>)
        ensures
            r == written,
            written_out(*old(self), written, *final(self)),
    {
        if written.is_ok() {
            self.dirty = false;
        }
        written
    }

    /// The slot for what was read. A file that is not there gives no slot.
    pub fn load(read: Result<Option<T>, SaveIoError>) -> (r: Result<
        Option<SaveSlot<T>>,
        SaveIoError,
    >)
        ensures
            loaded_from(read, r),
    {
        match read {
            Ok(Some(value)) => Ok(Some(SaveSlot::new(value))),
            Ok(None) => Ok(None),
            Err(error) => Err(error),
        }
    }

    /// The slot for what was read; a file that is not there gives the default
    /// value. A file that cannot be read is never replaced by the default.
    pub fn load_or_default(read: Result<Option<T>, SaveIoError>) -> (r: Result<
        SaveSlot<T>,
        SaveIoError,
    >) where T: Default
        ensures
            loaded_or_default(read, r),
    {
        match Self::load(read) {
            Ok(Some(slot)) => Ok(slot),
            Ok(None) => Ok(SaveSlot::new(T::default())),
            Err(error) => Err(error),
        }
    }
}

/// Replacing a value leaves a slot exactly as writing the value through
/// [`SaveSlot::borrow_mut`] does, whatever was in it before.
pub proof fn replacing_is_writing<T>(applied: SaveSlot<T>, assigned: SaveSlot<T>, value: T)
    requires
        rewritten(applied, value),
        rewritten(assigned, value),
    ensures
        applied == assigned,
{
}

/// Where reading gives back the value that was written last, loading gives a slot
/// with the value of the slot that was saved, and neither needs saving.
pub proof fn what_was_saved_is_loaded<T>(
    before: SaveSlot<T>,
    after: SaveSlot<T>,
    event: ReadEvent<T>,
    loaded: Result<Option<SaveSlot<T>>, SaveIoError>,
)
    requires
        written_out(before, Ok(()), after),
        event == ReadEvent::Parsed(before.value()),
        loaded_from(read_result(event), loaded),
    ensures
        loaded matches Ok(Some(slot)) && slot.value() == after.value() && !slot.changed()
            && !after.changed() && slot == after,
{
}

/// Loading gives no slot exactly where there is no file; a file that cannot be
/// read, or does not hold a value, gives an error.
pub proof fn only_a_missing_file_is_no_save<T>(
    event: ReadEvent<T>,
    loaded: Result<Option<SaveSlot<T>>, SaveIoError>,
)
    requires
        loaded_from(read_result(event), loaded),
    ensures
        (loaded matches Ok(None)) <==> event is Missing,
        loaded is Err <==> event is Unreadable || event is Malformed,
{
}

/// On a host, a player with an id saves below the game's directory, in a directory
/// of that id, whatever else is known of the player. A player without an id, or
/// with an empty one, saves in the directory of those whom the host did not name.
pub proof fn saves_go_by_the_user_id(slug: Seq<char>, context: FogletContext)
    requires
        context.source != ContextSource::LocalDev,
        slug.len() > 0,
        slug[0] != '/',
        slug.last() != '/',
    ensures
        context.user_id matches Some(id) ==> id@.len() > 0 && id@[0] != '/' && id@.last() != '/'
            ==> default_path(slug, context) == "/srv/foglet/doors/"@ + slug + "/saves/"@ + id@
            + "/save.json"@,
        context.user_id is None || context.user_id->0@.len() == 0 ==> default_path(slug, context)
            == "/srv/foglet/doors/"@ + slug + "/saves/anonymous/save.json"@,
{
    reveal_strlit("/srv/foglet/doors");
    reveal_strlit("/srv/foglet/doors/");
    reveal_strlit("saves");
    reveal_strlit("/saves/");
    reveal_strlit("/save.json");
    reveal_strlit("save.json");
    reveal_strlit("anonymous");
    reveal_strlit("/saves/anonymous/save.json");
    let u = user_segment(context);
    let plain = u.len() > 0 && u[0] != '/' && u.last() != '/';
    let game = joined(PROD_SAVE_ROOT@, slug);
    assert(game =~= "/srv/foglet/doors/"@ + slug);
    assert(game.last() == slug.last());
    let saves = joined(game, SAVES_SEGMENT@);
    assert(saves =~= "/srv/foglet/doors/"@ + slug + "/saves"@) by {
        reveal_strlit("/saves");
        assert(game.push('/') + SAVES_SEGMENT@ =~= game + "/saves"@);
    }
    assert(saves.last() == 's');
    if plain {
        let own = joined(saves, u);
        assert(own =~= saves.push('/') + u);
        assert(own.last() == u.last());
        assert(default_path(slug, context) =~= own.push('/') + SAVE_FILENAME@);
        assert(default_path(slug, context) =~= "/srv/foglet/doors/"@ + slug + "/saves/"@ + u
            + "/save.json"@) by {
            reveal_strlit("/saves");
        }
        if context.user_id is None || context.user_id->0@.len() == 0 {
            assert(default_path(slug, context) =~= "/srv/foglet/doors/"@ + slug
                + "/saves/anonymous/save.json"@);
        }
    }
}

/// On a host, players with different ids have different save paths, whatever else
/// they share. Ids that are empty or absolute paths, and ids that differ only in a
/// slash at the end, are another matter.
pub proof fn different_ids_have_different_saves(
    slug: Seq<char>,
    a: FogletContext,
    b: FogletContext,
)
    requires
        a.source != ContextSource::LocalDev,
        b.source != ContextSource::LocalDev,
        a.user_id is Some,
        b.user_id is Some,
        a.user_id->0@.len() > 0,
        b.user_id->0@.len() > 0,
        a.user_id->0@[0] != '/',
        b.user_id->0@[0] != '/',
        a.user_id->0@ != b.user_id->0@,
        !same_but_for_slash(a.user_id->0@, b.user_id->0@),
    ensures
        default_path(slug, a) != default_path(slug, b),
{
    players_do_not_share_saves(slug, a, b);
}

/// The same player always saves at the same place: on a host nothing but the game
/// and the player's id matters, and on a developer's machine nothing at all.
pub proof fn nothing_but_game_and_id_matters(
    slug: Seq<char>,
    other: Seq<char>,
    a: FogletContext,
    b: FogletContext,
)
    ensures
        a.source != ContextSource::LocalDev && b.source != ContextSource::LocalDev && opt_text(
            a.user_id,
        ) == opt_text(b.user_id) ==> default_path(slug, a) == default_path(slug, b),
        a.source == ContextSource::LocalDev && b.source == ContextSource::LocalDev
            ==> default_path(slug, a) == default_path(other, b),
        a.source == ContextSource::LocalDev ==> default_path(slug, a)
            == ".fgk/saves/local-dev/save.json"@,
{
    reveal_strlit("save.json");
    reveal_strlit(".fgk/saves/local-dev");
    reveal_strlit(".fgk/saves/local-dev/save.json");
    if a.source == ContextSource::LocalDev {
        assert(default_path(slug, a) =~= ".fgk/saves/local-dev/save.json"@);
    }
}

/// A directory given on the command line wins over the environment, and a
/// directory that the environment names wins over the usual place; an empty name in
/// the environment counts for nothing. A game that does not save has no path, and a
/// game without a name is refused even then.
pub proof fn explicit_directories_win(
    inputs: SavePathInputs,
    env: Option<Seq<char>>,
    other: Option<Seq<char>>,
)
    ensures
        inputs.slug@.len() == 0 <==> save_location(inputs, env) is Err,
        inputs.slug@.len() > 0 && inputs.strategy == SaveStrategy::Disabled ==> save_location(
            inputs,
            env,
        ) == Ok::<Option<Seq<char>>, SavePathError>(None),
        inputs.slug@.len() > 0 && inputs.strategy != SaveStrategy::Disabled ==> {
            let path = save_location(inputs, env)->Ok_0->0;
            &&& inputs.cli_override matches Some(dir) ==> path == joined(dir@, "save.json"@)
            &&& inputs.cli_override is None && env is Some && env->0.len() > 0 ==> path == joined(
                env->0,
                "save.json"@,
            )
            &&& inputs.cli_override is None && (env is None || env->0.len() == 0) ==> path
                == default_path(inputs.slug@, *inputs.context)
        },
        !asks_environment(inputs) ==> save_location(inputs, env) == save_location(inputs, other),
        asks_environment(inputs) <==> inputs.slug@.len() > 0 && inputs.strategy
            == SaveStrategy::PerFogletUser && inputs.cli_override is None,
{
}

/// A relative path below a directory is the two with one slash between them; an
/// absolute path, and a path below nothing, stays as it is.
pub proof fn joining_puts_one_slash_between(dir: Seq<char>, name: Seq<char>)
    ensures
        name.len() > 0 && name[0] == '/' ==> joined(dir, name) == name,
        dir.len() == 0 ==> joined(dir, name) == name,
        dir.len() > 0 && (name.len() == 0 || name[0] != '/') ==> {
            let path = joined(dir, name);
            let n = path.len() - name.len();
            &&& n > 0
            &&& path.skip(n) == name
            &&& path[n - 1] == '/'
            &&& path.take(n) == dir || path.take(n - 1) == dir
            &&& dir.last() == '/' <==> path.take(n) == dir
        },
{
    if dir.len() > 0 && (name.len() == 0 || name[0] != '/') {
        let path = joined(dir, name);
        let n = path.len() - name.len();
        assert(path.skip(n) =~= name);
        if dir.last() == '/' {
            assert(path.take(n) =~= dir);
        } else {
            assert(path.take(n - 1) =~= dir);
            assert(path.take(n).len() == dir.len() + 1);
        }
    }
}

/// A step that fails is named by its error, with what the system said.
pub proof fn failed_steps_are_named(step: WriteStep, said: String)
    ensures
        step_error(step, said) == SaveIoError::Mkdir(said) <==> step == WriteStep::MakeDirectory,
        step_error(step, said) == SaveIoError::Serialize(said) <==> step == WriteStep::Serialize,
        step_error(step, said) == SaveIoError::Persist(said) <==> step == WriteStep::Rename,
        step_error(step, said) == SaveIoError::Write(said) <==> step == WriteStep::CreateTemporary
            || step == WriteStep::Flush || step == WriteStep::Sync,
{
}

/// Writing a file takes exactly six steps, in this order: the directory is made
/// first, and the file is replaced only when its bytes are on the disk.
pub proof fn writing_takes_every_step()
    ensures
        step_after(WriteStep::MakeDirectory) == Some(WriteStep::CreateTemporary),
        step_after(WriteStep::CreateTemporary) == Some(WriteStep::Serialize),
        step_after(WriteStep::Serialize) == Some(WriteStep::Flush),
        step_after(WriteStep::Flush) == Some(WriteStep::Sync),
        step_after(WriteStep::Sync) == Some(WriteStep::Rename),
        step_after(WriteStep::Rename) is None,
{
}

/// What the system said comes back in every message, behind words that tell one
/// kind of trouble from another.
pub proof fn save_errors_quote_the_system(a: SaveIoError, said: String)
    ensures
        io_error_text(SaveIoError::Mkdir(said)) == "creating save parent directory failed: "@
            + said@,
        io_error_text(SaveIoError::Write(said)) == "writing save file failed: "@ + said@,
        io_error_text(SaveIoError::Persist(said)) == "renaming temp save into place failed: "@
            + said@,
        io_error_text(SaveIoError::Read(said)) == "reading save file failed: "@ + said@,
        io_error_text(SaveIoError::Serialize(said)) == "serializing save state to JSON failed: "@
            + said@,
        io_error_text(SaveIoError::Deserialize(said))
            == "deserializing save state from JSON failed: "@ + said@,
        io_error_text(SaveIoError::NoParent { path: said }) == "save path has no parent directory: "@
            + said@,
{
}

/// Putting a value into a slot makes it need saving until a save works; a save
/// never changes the value, and a save that fails changes nothing.
pub proof fn slots_need_saving_until_saved<T>(
    slot: SaveSlot<T>,
    value: T,
    written: Result<(), SaveIoError>,
    after: SaveSlot<T>,
)
    requires
        rewritten(slot, value),
        written_out(slot, written, after),
    ensures
        slot.changed(),
        after.value() == value,
        written is Ok ==> !after.changed(),
        written is Err ==> after == slot,
{
}

/// Reading keeps what was read, and tells a file that could not be read from one that
/// holds no value.
pub proof fn reading_tells_troubles_apart<T>(event: ReadEvent<T>)
    ensures
        event matches ReadEvent::Parsed(value) ==> read_result(event) == Ok::<
            Option<T>,
            SaveIoError,
        >(Some(value)),
        event matches ReadEvent::Unreadable(said) ==> read_result(event) == Err::<
            Option<T>,
            SaveIoError,
        >(SaveIoError::Read(said)),
        event matches ReadEvent::Malformed(said) ==> read_result(event) == Err::<
            Option<T>,
            SaveIoError,
        >(SaveIoError::Deserialize(said)),
{
}

/// The default value stands in only for a file that is not there: what was saved is
/// never replaced by it, and trouble is never hidden by it. A loaded slot needs no
/// saving.
pub proof fn defaults_stand_in_for_missing_files_only<T: Default>(
    event: ReadEvent<T>,
    loaded: Result<SaveSlot<T>, SaveIoError>,
)
    requires
        loaded_or_default(read_result(event), loaded),
    ensures
        event matches ReadEvent::Parsed(value) ==> (loaded matches Ok(slot) && slot.value()
            == value),
        event is Missing ==> (loaded matches Ok(slot) && call_ensures(
            T::default,
            (),
            slot.value(),
        )),
        loaded is Err <==> event is Unreadable || event is Malformed,
        loaded matches Ok(slot) ==> !slot.changed(),
{
}

} // verus!
