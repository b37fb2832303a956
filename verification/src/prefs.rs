use vstd::prelude::*;

verus! {

/// The settings layout this program writes and understands.
pub const CURRENT_VERSION: u32 = 1;

/// The layout version of the default settings.
pub const DEFAULT_VERSION: u32 = 1;

/// Whether the preferences must be treated as read-only for this run: the file
/// on disk could not be parsed, or it was written by a newer program whose
/// layout this one does not know. Either way the file is never overwritten.
pub open spec fn spec_read_only_mode(corrupt: bool, loaded_version: u32) -> bool {
    corrupt || loaded_version > CURRENT_VERSION
}

pub fn read_only_mode(corrupt: bool, loaded_version: u32) -> (read_only: bool)
    ensures
        read_only == spec_read_only_mode(corrupt, loaded_version),
{
    corrupt || loaded_version > CURRENT_VERSION
}

/// What reading the settings file gave.
#[derive(Clone, Copy, Debug, PartialEq, Eq, Structural)]
pub enum ConfigRead {
    /// There is no place for the file (no data directory).
    NoPath,
    /// The file could not be read (it does not exist yet, most often).
    Unreadable,
    /// The file was read and parsed; the layout version it holds.
    Parsed { version: u32 },
    /// The file was read but is not valid settings.
    Unparsable,
}

/// What to do with the outcome of reading the settings file.
#[derive(Clone, Copy, Debug, PartialEq, Eq, Structural)]
pub struct LoadPlan {
    /// Use the parsed settings (else the defaults).
    pub use_parsed: bool,
    /// The file is there but broken.
    pub corrupt: bool,
    /// Write the defaults to the file now.
    pub write_default: bool,
    /// The layout version of the settings in use.
    pub version: u32,
    /// Never write the file in this run.
    pub read_only: bool,
    /// The file comes from a newer program (worth a warning).
    pub newer_version: bool,
}

pub open spec fn spec_plan_load(read: ConfigRead) -> LoadPlan {
    let (use_parsed, corrupt, write_default, version) = match read {
        ConfigRead::NoPath => (false, false, false, DEFAULT_VERSION),
        ConfigRead::Unreadable => (false, false, true, DEFAULT_VERSION),
        ConfigRead::Parsed { version } => (true, false, false, version),
        ConfigRead::Unparsable => (false, true, false, DEFAULT_VERSION),
    };
    LoadPlan {
        use_parsed,
        corrupt,
        write_default,
        version,
        read_only: spec_read_only_mode(corrupt, version),
        newer_version: version > CURRENT_VERSION,
    }
}

/// Decides, from what reading the file gave, which settings to use, whether
/// to create the file, and whether this run may write it at all.
pub fn plan_load(read: ConfigRead) -> (plan: LoadPlan)
    ensures
        plan == spec_plan_load(read),
{
    let (use_parsed, corrupt, write_default, version) = match read {
        ConfigRead::NoPath => (false, false, false, DEFAULT_VERSION),
        ConfigRead::Unreadable => (false, false, true, DEFAULT_VERSION),
        ConfigRead::Parsed { version } => (true, false, false, version),
        ConfigRead::Unparsable => (false, true, false, DEFAULT_VERSION),
    };
    LoadPlan {
        use_parsed,
        corrupt,
        write_default,
        version,
        read_only: read_only_mode(corrupt, version),
        newer_version: version > CURRENT_VERSION,
    }
}

/// Whether changed settings may be written out: only with a place for the file
/// and outside read-only mode.
pub struct SaveGate {
    read_only: bool,
    has_path: bool,
}

pub open spec fn spec_may_write(read_only: bool, has_path: bool) -> bool {
    !read_only && has_path
}

impl SaveGate {
    pub closed spec fn read_only(&self) -> bool {
        self.read_only
    }

    pub closed spec fn has_path(&self) -> bool {
        self.has_path
    }

    pub fn new(read_only: bool, has_path: bool) -> (gate: Self)
        ensures
            gate.read_only() == read_only,
            gate.has_path() == has_path,
    {
        SaveGate { read_only, has_path }
    }

    /// Whether a save (queued or immediate) goes ahead.
    pub fn may_write(&self) -> (ok: bool)
        ensures
            ok == spec_may_write(self.read_only(), self.has_path()),
    {
        !self.read_only && self.has_path
    }
}

/// Of the saves waiting in the queue, only the newest is written.
pub fn newest_job<T>(first: T, rest: Vec<T>) -> (job: T)
    ensures
        job == (if rest@.len() > 0 { rest@.last() } else { first }),
{
    let mut rest = rest;
    match rest.pop() {
        Some(last) => last,
        None => first,
    }
}

/// A file that could not be parsed, or that a newer program wrote, is never
/// overwritten in this run.
pub proof fn law_unreadable_settings_are_kept(read: ConfigRead, has_path: bool)
    requires
        read == ConfigRead::Unparsable || (read matches ConfigRead::Parsed { version } && version
            > CURRENT_VERSION),
    ensures
        spec_plan_load(read).read_only,
        !spec_may_write(spec_plan_load(read).read_only, has_path),
{
}

/// A file this program wrote (or an older one) is used as read and stays
/// writable; a missing one is created with the defaults and stays writable.
pub proof fn law_own_settings_stay_writable(read: ConfigRead)
    requires
        read == ConfigRead::Unreadable || (read matches ConfigRead::Parsed { version } && version
            <= CURRENT_VERSION),
    ensures
        !spec_plan_load(read).read_only,
        spec_may_write(spec_plan_load(read).read_only, true),
        read == ConfigRead::Unreadable ==> spec_plan_load(read).write_default,
{
}

/// A plain file name: made of ASCII letters, digits, '.', '_' and '-', with at
/// least one letter or digit.
pub open spec fn is_plain_name(name: Seq<char>) -> bool {
    &&& forall|i: int|
        0 <= i < name.len() ==> {
            let c = #[trigger] name[i];
            ('a' <= c <= 'z') || ('A' <= c <= 'Z') || ('0' <= c <= '9') || c == '.' || c == '_'
                || c == '-'
        }
    &&& exists|i: int|
        0 <= i < name.len() && {
            let c = #[trigger] name[i];
            ('a' <= c <= 'z') || ('A' <= c <= 'Z') || ('0' <= c <= '9')
        }
}

/// A Windows verbatim path (`\\?\...`), which joining rewrites.
pub open spec fn is_verbatim(path: Seq<char>) -> bool {
    path.len() >= 4 && path[0] == '\\' && path[1] == '\\' && path[2] == '?' && path[3] == '\\'
}

/// A bare drive such as `C:`, after which Windows puts no separator.
pub open spec fn is_bare_drive(path: Seq<char>) -> bool {
    path.len() == 2 && (('a' <= path[0] <= 'z') || ('A' <= path[0] <= 'Z')) && path[1] == ':'
}

/// `path` is `name` placed inside `base`, for a base that is not a verbatim
/// path: nothing is put between them after an empty base or one that ends in
/// `/`; one separator (`/` or `\`, the platform's) is put after a base that
/// ends in neither separator and is not a bare drive; in the remaining cases
/// (a trailing `\`, a bare drive) at most one separator.
pub open spec fn joined(base: Seq<char>, name: Seq<char>, path: Seq<char>) -> bool {
    &&& base.len() == 0 ==> path == name
    &&& base.len() > 0 && base.last() == '/' ==> path == base + name
    &&& base.len() > 0 && base.last() != '/' && base.last() != '\\' && !is_bare_drive(base) ==> (
    path == base + seq!['/'] + name || path == base + seq!['\\'] + name)
    &&& (path == base + name || path == base + seq!['/'] + name || path == base + seq!['\\']
        + name)
}

/// Calls `Path::join` (with the conversions from and back to text). For a
/// plain file name and a base that is not a verbatim path, the result is as
/// `joined` states. Which of the two separators is used is the platform's and
/// is left unsaid, as is what a verbatim base becomes.
#[verifier::external_body]
fn join_path(base: &str, name: &str) -> (path: String)
    requires
        is_plain_name(name@),
    ensures
        !is_verbatim(base@) ==> joined(base@, name@, path@),
{
    std::path::Path::new(base).join(name).to_string_lossy().into_owned()
}

/// The directory that holds the program's data, inside the roaming
/// application-data folder.
pub fn data_dir_path(roaming: &str) -> (dir: String)
    ensures
        !is_verbatim(roaming@) ==> joined(roaming@, "lumitray"@, dir@),
{
    let name = "lumitray";
    proof {
        reveal_strlit("lumitray");
        assert(is_plain_name(name@)) by {
            let c = name@[0];
            assert('a' <= c <= 'z');
        }
    }
    join_path(roaming, name)
}

/// Where the settings file lives: `config.toml` in the data directory, when
/// there is one.
pub fn config_path(data_dir: Option<String>) -> (path: Option<String>)
    ensures
        data_dir is None <==> path is None,
        data_dir matches Some(d) ==> (path matches Some(p) && (!is_verbatim(d@) ==> joined(
            d@,
            "config.toml"@,
            p@,
        ))),
{
    match data_dir {
        None => None,
        Some(dir) => {
            let name = "config.toml";
            proof {
                reveal_strlit("config.toml");
                assert(is_plain_name(name@)) by {
                    let c = name@[0];
                    assert('a' <= c <= 'z');
                }
            }
            Some(join_path(dir.as_str(), name))
        },
    }
}

/// Only a file that could not be read is (re)created with the defaults: a file
/// that was read, whether it parsed or not, and a run without a data
/// directory write nothing at load.
pub proof fn law_only_an_unreadable_file_is_created(read: ConfigRead)
    ensures
        spec_plan_load(read).write_default <==> read == ConfigRead::Unreadable,
        forall|version: u32| !(#[trigger] spec_plan_load(ConfigRead::Parsed { version })).write_default,
{
}

/// The parsed settings are used exactly when the file parsed, and then with the
/// file's own version; otherwise the defaults, of the current layout.
pub proof fn law_parsed_settings_are_used(read: ConfigRead)
    ensures
        spec_plan_load(read).use_parsed <==> read is Parsed,
        read matches ConfigRead::Parsed { version } ==> spec_plan_load(read).version == version,
        !(read is Parsed) ==> spec_plan_load(read).version == CURRENT_VERSION,
        spec_plan_load(read).corrupt <==> read == ConfigRead::Unparsable,
{
}

/// Read-only mode is entered exactly for a broken file or one of a newer
/// layout: a sound file of this or an older layout never blocks saving, and
/// a broken one always does, whatever version it claims.
pub proof fn law_read_only_exactly_for_broken_or_newer(corrupt: bool, version: u32)
    ensures
        corrupt ==> spec_read_only_mode(corrupt, version),
        version > CURRENT_VERSION ==> spec_read_only_mode(corrupt, version),
        !corrupt && version <= CURRENT_VERSION ==> !spec_read_only_mode(corrupt, version),
{
}

/// Saving happens exactly when the run is not read-only and there is a file.
pub proof fn law_saves_need_a_writable_file(read_only: bool, has_path: bool)
    ensures
        read_only ==> !spec_may_write(read_only, has_path),
        !has_path ==> !spec_may_write(read_only, has_path),
        !read_only && has_path ==> spec_may_write(read_only, has_path),
{
}

} // verus!
