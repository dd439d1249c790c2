//! The installation: its directory, the current version, the known releases,
//! and the shims that route the tools to the current version.

use vstd::prelude::*;
use vstd::hash_map::StringHashMap;

use crate::path::{
    join, path_join, normalize, normalize_path, spec_file_name, file_name, is_plain, is_dot,
    is_dot_dot, lemma_join_plain, law_join_plain_injective, lemma_normalize_idempotent,
    law_file_name_of_join,
};
use crate::shell::{CommandLine, CommandLineView, Shell};
use crate::version::Version;

verus! {

/// Where the installation lives: the directory `RUSTV_PATH` names where it is
/// set, else `.rustv` in the home directory.
pub open spec fn spec_installation_directory(
    rustv_path: Option<Seq<char>>,
    home: Option<Seq<char>>,
) -> Seq<char> {
    match rustv_path {
        Some(p) => normalize(p),
        None => path_join(home->0, ".rustv"@),
    }
}

/// Picks the installation directory from the values of the environment
/// variables `RUSTV_PATH` and `HOME`. The program aborts where neither is set;
/// this function asks for one of them.
pub fn locate_installation_directory(rustv_path: Option<&str>, home: Option<&str>) -> (r: String)
    requires
        rustv_path is Some || home is Some,
    ensures
        r@ == spec_installation_directory(
            match rustv_path { Some(p) => Some(p@), None => None },
            match home { Some(h) => Some(h@), None => None },
        ),
{
    match rustv_path {
        Some(p) => normalize_path(p),
        None => join(home.unwrap(), ".rustv"),
    }
}

/// A line break, as `chomp` counts them.
pub open spec fn is_line_break(c: char) -> bool {
    c == '\n' || c == '\r'
}

/// How many line breaks `s` holds, wherever they stand.
pub open spec fn line_break_count(s: Seq<char>) -> nat
    decreases s.len(),
{
    if s.len() == 0 {
        0
    } else {
        line_break_count(s.drop_last()) + if is_line_break(s.last()) { 1nat } else { 0nat }
    }
}

proof fn lemma_line_break_count_concat(a: Seq<char>, b: Seq<char>)
    ensures
        line_break_count(a + b) == line_break_count(a) + line_break_count(b),
    decreases b.len(),
{
    if b.len() > 0 {
        assert((a + b).drop_last() =~= a + b.drop_last());
        lemma_line_break_count_concat(a, b.drop_last());
    } else {
        assert(a + b =~= a);
    }
}

proof fn lemma_line_break_count_all(s: Seq<char>)
    requires
        forall|i: int| 0 <= i < s.len() ==> is_line_break(#[trigger] s[i]),
    ensures
        line_break_count(s) == s.len(),
    decreases s.len(),
{
    if s.len() > 0 {
        lemma_line_break_count_all(s.drop_last());
    }
}

/// What `chomp` gives: `s` with as many characters dropped from its end as `s`
/// holds line breaks.
pub open spec fn spec_chomp(s: Seq<char>) -> Seq<char> {
    s.take(s.len() - line_break_count(s))
}

/// Drops one character from the end of `s` for each line break in `s`.
/// Where the line breaks all stand at the end, as in the content of a file
/// that ends in a newline, that strips them.
pub fn chomp(s: &str) -> (r: String)
    ensures
        r@ == spec_chomp(s@),
{
    let len = s.unicode_len();
    let mut count: usize = 0;
    let mut i: usize = 0;
    while i < len
        invariant
            len == s@.len(),
            i <= len,
            count == line_break_count(s@.take(i as int)),
            count <= i,
        decreases len - i,
    {
        let c = s.get_char(i);
        assert(s@.take(i + 1).drop_last() =~= s@.take(i as int));
        if c == '\n' || c == '\r' {
            count = count + 1;
        }
        i = i + 1;
    }
    assert(s@.take(len as int) =~= s@);
    let kept = s.substring_char(0, len - count);
    String::from_str(kept)
}

/// Chomping text that holds no line break but ends in any number of line
/// breaks gives back the text.
pub proof fn law_chomp_strips_trailing_line_breaks(text: Seq<char>, tail: Seq<char>)
    requires
        line_break_count(text) == 0,
        forall|i: int| 0 <= i < tail.len() ==> is_line_break(#[trigger] tail[i]),
    ensures
        spec_chomp(text + tail) == text,
{
    lemma_line_break_count_concat(text, tail);
    lemma_line_break_count_all(tail);
    assert((text + tail).take(text.len() as int) =~= text);
}

/// The lookup table of releases by name: each name maps to the last release
/// with that name in `versions`.
pub open spec fn version_index(versions: Seq<Version>) -> Map<Seq<char>, Version>
    decreases versions.len(),
{
    if versions.len() == 0 {
        Map::empty()
    } else {
        version_index(versions.drop_last()).insert(versions.last().name@, versions.last())
    }
}

/// Builds the lookup table of the releases that the version listing holds,
/// in the order in which it lists them.
pub fn load_versions(versions: Vec<Version>) -> (r: StringHashMap<Version>)
    ensures
        r@ == version_index(versions@),
{
    let ghost all = versions@;
    let mut rest = versions;
    let mut table: StringHashMap<Version> = StringHashMap::new();
    let mut k: usize = 0;
    assert(all.len() == rest.len());
    while rest.len() > 0
        invariant
            k <= all.len(),
            all.len() <= usize::MAX,
            rest@ == all.skip(k as int),
            table@ == version_index(all.take(k as int)),
        decreases rest.len(),
    {
        let v = rest.remove(0);
        assert(all.take(k + 1).drop_last() =~= all.take(k as int));
        assert(all.take(k + 1).last() == v);
        assert(rest@ =~= all.skip(k + 1));
        let name = v.name.clone();
        table.insert(name, v);
        k = k + 1;
    }
    assert(all.take(k as int) =~= all);
    table
}

/// Every release of the listing can be found by its name, and the one found
/// is the last release of the listing with that name; nothing else is found.
pub proof fn law_listed_versions_found(versions: Seq<Version>, i: int)
    requires
        0 <= i < versions.len(),
        forall|j: int| i < j < versions.len() ==> (#[trigger] versions[j]).name@ != versions[i].name@,
    ensures
        version_index(versions).contains_key(versions[i].name@),
        version_index(versions)[versions[i].name@] == versions[i],
    decreases versions.len(),
{
    if i < versions.len() - 1 {
        law_listed_versions_found(versions.drop_last(), i);
        assert(versions.drop_last()[i] == versions[i]);
        assert(versions.last() == versions[versions.len() - 1]);
    }
}

/// A name is found in the lookup table only where some release of the listing
/// bears it.
pub proof fn law_found_versions_listed(versions: Seq<Version>, name: Seq<char>)
    requires
        version_index(versions).contains_key(name),
    ensures
        exists|j: int| 0 <= j < versions.len() && (#[trigger] versions[j]).name@ == name,
    decreases versions.len(),
{
    if versions.len() > 0 && versions.last().name@ != name {
        law_found_versions_listed(versions.drop_last(), name);
        let j = choose|j: int|
            0 <= j < versions.drop_last().len() && (#[trigger] versions.drop_last()[j]).name@ == name;
        assert(versions[j] == versions.drop_last()[j]);
    } else if versions.len() > 0 {
        assert(versions[versions.len() - 1].name@ == name);
    }
}

/// The directories of a new installation at `root`, in the order in which
/// they are created: the root, then `bin`, `versions` and `dl_cache` in it.
pub open spec fn spec_rustv_directories(root: Seq<char>) -> Seq<Seq<char>> {
    seq![
        normalize(root),
        path_join(root, "bin"@),
        path_join(root, "versions"@),
        path_join(root, "dl_cache"@),
    ]
}

/// The directories to create for a new installation at `root`.
pub fn rustv_directories(root: &str) -> (r: Vec<String>)
    ensures
        r@.map_values(|d: String| d@) == spec_rustv_directories(root@),
{
    let mut dirs: Vec<String> = Vec::new();
    dirs.push(normalize_path(root));
    dirs.push(join(root, "bin"));
    dirs.push(join(root, "versions"));
    dirs.push(join(root, "dl_cache"));
    assert(dirs@.map_values(|d: String| d@) =~= spec_rustv_directories(root@));
    dirs
}

/// The name of the current version, given the content of the file
/// `current_version` where it exists: that content chomped, else `system`.
pub open spec fn spec_read_current_version(contents: Option<Seq<char>>) -> Seq<char> {
    match contents {
        Some(c) => spec_chomp(c),
        None => "system"@,
    }
}

/// Reads the name of the current version from the content of the file
/// `current_version`, or `None` where that file does not exist.
pub fn read_current_version(contents: Option<&str>) -> (r: String)
    ensures
        r@ == spec_read_current_version(match contents { Some(c) => Some(c@), None => None }),
{
    match contents {
        Some(c) => chomp(c),
        None => String::from_str("system"),
    }
}

/// Where release `version` is installed under the root `root`.
pub open spec fn spec_install_path(root: Seq<char>, version: Seq<char>) -> Seq<char> {
    path_join(path_join(root, "versions"@), version)
}

/// The version file that switching to `version` writes is read back, when
/// the program next starts, as that same version, so the installation comes
/// back with the same current directory, whether it is started again on its
/// root as given or as normalized; also where an editor has added a newline
/// to the file. Names that hold a line break are not read back whole.
pub proof fn law_version_file_round_trip(root: Seq<char>, version: Seq<char>)
    requires
        line_break_count(version) == 0,
    ensures
        spec_read_current_version(Some(version)) == version,
        spec_read_current_version(Some(version + seq!['\n'])) == version,
        spec_install_path(root, spec_read_current_version(Some(version))) == spec_install_path(
            root,
            version,
        ),
        spec_install_path(normalize(root), spec_read_current_version(Some(version)))
            == spec_install_path(root, version),
{
    lemma_normalize_idempotent(root);
    law_chomp_strips_trailing_line_breaks(version, Seq::empty());
    assert(version + Seq::<char>::empty() =~= version);
    law_chomp_strips_trailing_line_breaks(version, seq!['\n']);
}

proof fn lemma_plain_literals()
    ensures
        is_plain("versions"@),
        is_plain("bin"@),
        is_plain("dl_cache"@),
        is_plain(".rustv"@),
{
    reveal_strlit("versions");
    reveal_strlit("bin");
    reveal_strlit("dl_cache");
    reveal_strlit(".rustv");
    assert(!is_dot("dl_cache"@) && !is_dot_dot("dl_cache"@)) by {
        assert("dl_cache"@.len() == 8);
    }
    assert(!is_dot(".rustv"@) && !is_dot_dot(".rustv"@)) by {
        assert(".rustv"@.len() == 6);
    }
    assert(!is_dot("versions"@) && !is_dot_dot("versions"@)) by {
        assert("versions"@.len() == 8);
    }
    assert(!is_dot("bin"@) && !is_dot_dot("bin"@)) by {
        assert("bin"@.len() == 3);
    }
}

/// Two different releases with plain names are installed in two different
/// directories, whatever the root of the installation.
pub proof fn law_distinct_versions_distinct_dirs(root: Seq<char>, v1: Seq<char>, v2: Seq<char>)
    requires
        is_plain(v1),
        is_plain(v2),
        v1 != v2,
    ensures
        spec_install_path(root, v1) != spec_install_path(root, v2),
{
    law_join_plain_injective(path_join(root, "versions"@), v1, v2);
}

/// Whatever the root, the release with the plain name `version` is installed
/// directly under the `versions` directory of the installation, and its tool
/// `command` is `<that>/bin/<command>`.
pub proof fn law_tool_layout(root: Seq<char>, version: Seq<char>, command: Seq<char>)
    requires
        is_plain(version),
        is_plain(command),
    ensures
        spec_install_path(root, version) == path_join(root, "versions"@) + seq!['/'] + version,
        path_join(path_join(spec_install_path(root, version), "bin"@), command)
            == spec_install_path(root, version) + seq!['/'] + "bin"@ + seq!['/'] + command,
{
    lemma_plain_literals();
    let versions_dir = path_join(root, "versions"@);
    lemma_join_plain(root, "versions"@);
    lemma_join_plain(versions_dir, version);
    let install = spec_install_path(root, version);
    lemma_join_plain(install, "bin"@);
    let bin = path_join(install, "bin"@);
    lemma_join_plain(bin, command);
}

/// The line that lists the installed version at `entry`: the entry as a
/// normalized path, with `*` after it where it is the current version.
pub open spec fn listing_line(entry: Seq<char>, current_version: Seq<char>) -> Seq<char> {
    if normalize(entry) == current_version {
        normalize(entry) + "*"@
    } else {
        normalize(entry)
    }
}

/// The first line of every shim: the root of the installation.
pub open spec fn shim_root_line(root: Seq<char>) -> Seq<char> {
    "export RUSTV_PATH="@ + root
}

/// The second line of every shim: the libraries of the current version.
pub open spec fn shim_library_line() -> Seq<char> {
    "export DYLD_LIBRARY_PATH=$RUSTV_PATH/versions/`cat $RUSTV_PATH/current_version`/lib"@
}

/// The last line of the shim for the tool `name`: that tool of the current
/// version, with the shim's arguments.
pub open spec fn shim_exec_line(name: Seq<char>) -> Seq<char> {
    "$RUSTV_PATH/versions/`cat $RUSTV_PATH/current_version`/bin/"@ + name + " $@"@
}

/// The shell script that runs the tool `name` of the current version of the
/// installation at `root`.
pub open spec fn shim_contents(root: Seq<char>, name: Seq<char>) -> Seq<char> {
    "#!/bin/sh\n"@ + shim_root_line(root) + "\n"@ + shim_library_line() + "\n"@
        + shim_exec_line(name)
}

/// What an installation is: its root, the directory of its current version,
/// and its releases by name.
pub struct RustvView {
    pub root: Seq<char>,
    pub current_version: Seq<char>,
    pub versions: Map<Seq<char>, Version>,
}

/// An installation of several versions of Rust.
pub struct Rustv {
    root: String,
    current_version: String,
    versions: StringHashMap<Version>,
}

/// A shim to write: the file and the script that it holds.
pub struct Shim {
    pub path: String,
    pub contents: String,
}

/// What switching to another version takes on disk: the version file gets
/// the version's name, and the links `lib` and `share` of the installation
/// are made again to point into the version's directory.
pub struct VersionSwitch {
    pub version_file: String,
    pub version_file_contents: String,
    pub lib_link: String,
    pub lib_target: String,
    pub share_link: String,
    pub share_target: String,
}

impl View for Rustv {
    type V = RustvView;

    closed spec fn view(&self) -> RustvView {
        RustvView {
            root: self.root@,
            current_version: self.current_version@,
            versions: self.versions@,
        }
    }
}

impl Rustv {
    /// The root directory of the installation.
    pub fn root(&self) -> (r: &String)
        ensures
            r@ == self@.root,
    {
        &self.root
    }

    /// The directory of the current version.
    pub fn current_version(&self) -> (r: &String)
        ensures
            r@ == self@.current_version,
    {
        &self.current_version
    }

    /// The installation at `root`, whose current version is named
    /// `current_version_name` (see `read_current_version`) and whose releases
    /// are those of the version listing `versions`.
    pub fn new(root: &str, current_version_name: &str, versions: Vec<Version>) -> (r: Rustv)
        ensures
            r@.root == normalize(root@),
            r@.current_version == spec_install_path(root@, current_version_name@),
            r@.versions == version_index(versions@),
    {
        let current_version = Self::install_path_under(root, current_version_name);
        let table = load_versions(versions);
        Rustv { root: normalize_path(root), current_version, versions: table }
    }

    fn install_path_under(root: &str, version: &str) -> (r: String)
        ensures
            r@ == spec_install_path(root@, version@),
    {
        let versions_dir = join(root, "versions");
        join(versions_dir.as_str(), version)
    }

    /// Where release `version` is installed.
    pub fn install_path_for(&self, version: &str) -> (r: String)
        ensures
            r@ == spec_install_path(self@.root, version@),
    {
        Self::install_path_under(self.root.as_str(), version)
    }

    /// The directory that holds downloaded archives.
    pub fn download_path(&self) -> (r: String)
        ensures
            r@ == path_join(self@.root, "dl_cache"@),
    {
        join(self.root.as_str(), "dl_cache")
    }

    /// The directory of cached data.
    pub fn cache_path(&self) -> (r: String)
        ensures
            r@ == path_join(self@.root, "cache"@),
    {
        join(self.root.as_str(), "cache")
    }

    /// The lines that list the installed versions, given the entries of the
    /// `versions` directory: each entry as a normalized path, with `*` after
    /// the current one.
    pub fn versions(&self, entries: &Vec<String>) -> (r: Vec<String>)
        ensures
            r@.len() == entries@.len(),
            forall|i: int|
                0 <= i < entries@.len() ==> (#[trigger] r@[i])@ == listing_line(
                    entries@[i]@,
                    self@.current_version,
                ),
    {
        let mut lines: Vec<String> = Vec::new();
        let mut i: usize = 0;
        while i < entries.len()
            invariant
                i <= entries@.len(),
                lines@.len() == i,
                forall|j: int|
                    0 <= j < i ==> (#[trigger] lines@[j])@ == listing_line(
                        entries@[j]@,
                        self@.current_version,
                    ),
            decreases entries@.len() - i,
        {
            let mut line = normalize_path(entries[i].as_str());
            if line == self.current_version {
                line.append("*");
            }
            lines.push(line);
            i = i + 1;
        }
        lines
    }

    /// The directory of the current version's tools, whose entries `refresh`
    /// makes shims for.
    pub fn bin_dir(&self) -> (r: String)
        ensures
            r@ == path_join(self@.current_version, "bin"@),
    {
        join(self.current_version.as_str(), "bin")
    }

    /// The shim for the tool at `exec_path`: a script in the installation's
    /// `bin` directory, under the tool's file name, that runs the tool of
    /// whichever version is current when it runs.
    pub fn create_binary_shim(&self, exec_path: &str) -> (r: Shim)
        requires
            spec_file_name(normalize(exec_path@)) is Some,
        ensures
            r.path@ == path_join(path_join(self@.root, "bin"@), spec_file_name(normalize(exec_path@))->0),
            r.contents@ == shim_contents(self@.root, spec_file_name(normalize(exec_path@))->0),
    {
        let name = file_name(exec_path).unwrap();
        let rustv_path = String::from_str("export RUSTV_PATH=").concat(self.root.as_str());
        let env_setup = String::from_str(
            "export DYLD_LIBRARY_PATH=$RUSTV_PATH/versions/`cat $RUSTV_PATH/current_version`/lib",
        );
        let bin = String::from_str(
            "$RUSTV_PATH/versions/`cat $RUSTV_PATH/current_version`/bin/",
        ).concat(name.as_str()).concat(" $@");
        let contents = String::from_str("#!/bin/sh\n").concat(rustv_path.as_str()).concat(
            "\n",
        ).concat(env_setup.as_str()).concat("\n").concat(bin.as_str());
        let bin_dir = join(self.root.as_str(), "bin");
        let path = join(bin_dir.as_str(), name.as_str());
        Shim { path, contents }
    }

    /// The shims for the tools of the current version, given the entries of
    /// its `bin` directory (see `bin_dir`), in the same order.
    pub fn refresh(&self, executables: &Vec<String>) -> (r: Vec<Shim>)
        requires
            forall|i: int|
                0 <= i < executables@.len() ==> spec_file_name(normalize(#[trigger] executables@[i]@)) is Some,
        ensures
            r@.len() == executables@.len(),
            forall|i: int|
                0 <= i < executables@.len() ==> {
                    let name = spec_file_name(normalize(executables@[i]@))->0;
                    &&& (#[trigger] r@[i]).path@ == path_join(path_join(self@.root, "bin"@), name)
                    &&& r@[i].contents@ == shim_contents(self@.root, name)
                },
    {
        let mut shims: Vec<Shim> = Vec::new();
        let mut i: usize = 0;
        while i < executables.len()
            invariant
                i <= executables@.len(),
                shims@.len() == i,
                forall|k: int|
                    0 <= k < executables@.len() ==> spec_file_name(
                        normalize(#[trigger] executables@[k]@),
                    ) is Some,
                forall|j: int|
                    0 <= j < i ==> {
                        let name = spec_file_name(normalize(executables@[j]@))->0;
                        &&& (#[trigger] shims@[j]).path@ == path_join(
                            path_join(self@.root, "bin"@),
                            name,
                        )
                        &&& shims@[j].contents@ == shim_contents(self@.root, name)
                    },
            decreases executables@.len() - i,
        {
            let shim = self.create_binary_shim(executables[i].as_str());
            shims.push(shim);
            i = i + 1;
        }
        shims
    }

    /// Makes release `version` the current one, and says what must change on
    /// disk for it: the version file `current_version` gets the name, and
    /// the links `lib` and `share` point into the release's directory.
    pub fn change_version(&mut self, version: &str) -> (r: VersionSwitch)
        ensures
            final(self)@.root == old(self)@.root,
            final(self)@.versions == old(self)@.versions,
            final(self)@.current_version == spec_install_path(old(self)@.root, version@),
            r.version_file@ == path_join(old(self)@.root, "current_version"@),
            r.version_file_contents@ == version@,
            r.lib_link@ == path_join(old(self)@.root, "lib"@),
            r.lib_target@ == path_join(final(self)@.current_version, "lib"@),
            r.share_link@ == path_join(old(self)@.root, "share"@),
            r.share_target@ == path_join(final(self)@.current_version, "share"@),
    {
        self.current_version = self.install_path_for(version);
        let version_file = join(self.root.as_str(), "current_version");
        let lib_link = join(self.root.as_str(), "lib");
        let share_link = join(self.root.as_str(), "share");
        let lib_target = join(self.current_version.as_str(), "lib");
        let share_target = join(self.current_version.as_str(), "share");
        VersionSwitch {
            version_file,
            version_file_contents: String::from_str(version),
            lib_link,
            lib_target,
            share_link,
            share_target,
        }
    }

    /// The command that installs release `version` under `prefix`.
    pub fn install(&self, version: &str, prefix: &str) -> (r: Shell)
        ensures
            r@ == (CommandLineView { program: "rustv-build"@, args: seq![version@, prefix@] }),
    {
        let mut command = CommandLine::new("rustv-build");
        command.arg(version);
        command.arg(prefix);
        assert(command@.args =~= seq![version@, prefix@]);
        Shell::new(command)
    }

    /// The release named `version_name`. The program aborts on a name that
    /// the version listing does not hold; this function asks for one it holds.
    pub fn version(&self, version_name: &String) -> (r: &Version)
        requires
            self@.versions.contains_key(version_name@),
        ensures
            *r == self@.versions[version_name@],
    {
        self.versions.get(version_name.as_str()).unwrap()
    }

    /// Whether the version listing holds a release named `version_name`.
    pub fn has_version(&self, version_name: &str) -> (r: bool)
        ensures
            r == self@.versions.contains_key(version_name@),
    {
        self.versions.contains_key(version_name)
    }

    /// Where the tool `command` of the current version lives.
    pub fn which(&self, command: &str) -> (r: String)
        ensures
            r@ == path_join(path_join(self@.current_version, "bin"@), command@),
    {
        let bin_dir = join(self.current_version.as_str(), "bin");
        join(bin_dir.as_str(), command)
    }
}

} // verus!

verus! {

/// Where `RUSTV_PATH` is set, the installation is that directory, whatever
/// `HOME` is; where it is not, the installation is `.rustv` directly in the
/// home directory.
pub proof fn law_rustv_path_wins(
    rustv_path: Seq<char>,
    home1: Option<Seq<char>>,
    home2: Option<Seq<char>>,
    home: Seq<char>,
)
    ensures
        spec_installation_directory(Some(rustv_path), home1) == normalize(rustv_path),
        spec_installation_directory(Some(rustv_path), home1) == spec_installation_directory(
            Some(rustv_path),
            home2,
        ),
        spec_installation_directory(None, Some(home)) == path_join(home, ".rustv"@),
        normalize(home) != seq!['/'] && normalize(home) != seq!['.'] ==> spec_installation_directory(
            None,
            Some(home),
        ) == normalize(home) + seq!['/'] + ".rustv"@,
{
    lemma_plain_literals();
    lemma_join_plain(home, ".rustv"@);
}

/// The directories of a new installation are its root, then `bin`, `versions`
/// and `dl_cache` directly in it, three different directories.
pub proof fn law_directories_under_root(root: Seq<char>)
    ensures
        spec_rustv_directories(root).len() == 4,
        spec_rustv_directories(root)[0] == normalize(root),
        spec_rustv_directories(root)[1] != spec_rustv_directories(root)[2],
        spec_rustv_directories(root)[1] != spec_rustv_directories(root)[3],
        spec_rustv_directories(root)[2] != spec_rustv_directories(root)[3],
        normalize(root) != seq!['/'] && normalize(root) != seq!['.'] ==> {
            &&& spec_rustv_directories(root)[1] == normalize(root) + seq!['/'] + "bin"@
            &&& spec_rustv_directories(root)[2] == normalize(root) + seq!['/'] + "versions"@
            &&& spec_rustv_directories(root)[3] == normalize(root) + seq!['/'] + "dl_cache"@
        },
{
    lemma_plain_literals();
    reveal_strlit("bin");
    reveal_strlit("versions");
    reveal_strlit("dl_cache");
    assert("bin"@ != "versions"@ && "bin"@ != "dl_cache"@) by {
        assert("bin"@.len() != "versions"@.len());
        assert("bin"@.len() != "dl_cache"@.len());
    }
    assert("versions"@ != "dl_cache"@) by {
        assert("versions"@[0] != "dl_cache"@[0]);
    }
    law_join_plain_injective(root, "bin"@, "versions"@);
    law_join_plain_injective(root, "bin"@, "dl_cache"@);
    law_join_plain_injective(root, "versions"@, "dl_cache"@);
    lemma_join_plain(root, "bin"@);
    lemma_join_plain(root, "versions"@);
    lemma_join_plain(root, "dl_cache"@);
}

/// In the version listing, an entry is marked with `*` exactly when its
/// normalized path is the current version's directory; every other entry is
/// listed as its normalized path, unmarked.
pub proof fn law_listing_marks_only_current(entry: Seq<char>, current: Seq<char>)
    ensures
        normalize(entry) == current ==> listing_line(entry, current) == current + "*"@,
        normalize(entry) != current ==> listing_line(entry, current) == normalize(entry),
        (listing_line(entry, current) == normalize(entry) + "*"@) <==> normalize(entry) == current,
{
    reveal_strlit("*");
    if normalize(entry) != current {
        assert((normalize(entry) + "*"@).len() != normalize(entry).len());
    }
}

/// The text of a shim, in full: the shebang line, the export of the whole
/// root of the installation, the library path of the current version, and
/// the call of the tool `name` of the current version with the shim's
/// arguments.
pub proof fn law_shim_text(root: Seq<char>, name: Seq<char>)
    ensures
        shim_contents(root, name) == "#!/bin/sh\n"@ + "export RUSTV_PATH="@ + root + "\n"@
            + "export DYLD_LIBRARY_PATH=$RUSTV_PATH/versions/`cat $RUSTV_PATH/current_version`/lib"@
            + "\n"@ + "$RUSTV_PATH/versions/`cat $RUSTV_PATH/current_version`/bin/"@ + name
            + " $@"@,
{
    assert(shim_contents(root, name) =~= "#!/bin/sh\n"@ + "export RUSTV_PATH="@ + root + "\n"@
        + "export DYLD_LIBRARY_PATH=$RUSTV_PATH/versions/`cat $RUSTV_PATH/current_version`/lib"@
        + "\n"@ + "$RUSTV_PATH/versions/`cat $RUSTV_PATH/current_version`/bin/"@ + name + " $@"@);
}

/// A shim names the whole root of the installation it belongs to: shims for
/// the same tool under two different roots differ.
pub proof fn law_shim_identifies_root(r1: Seq<char>, r2: Seq<char>, name: Seq<char>)
    requires
        shim_contents(r1, name) == shim_contents(r2, name),
    ensures
        r1 == r2,
{
    law_shim_text(r1, name);
    law_shim_text(r2, name);
    let a = "#!/bin/sh\n"@ + "export RUSTV_PATH="@;
    let m = "\n"@ + "export DYLD_LIBRARY_PATH=$RUSTV_PATH/versions/`cat $RUSTV_PATH/current_version`/lib"@
        + "\n"@ + "$RUSTV_PATH/versions/`cat $RUSTV_PATH/current_version`/bin/"@ + name + " $@"@;
    let c1 = a + r1 + m;
    let c2 = a + r2 + m;
    assert(shim_contents(r1, name) =~= c1);
    assert(shim_contents(r2, name) =~= c2);
    assert(r1.len() == r2.len());
    assert(c1.subrange(a.len() as int, a.len() + r1.len() as int) =~= r1);
    assert(c2.subrange(a.len() as int, a.len() + r2.len() as int) =~= r2);
}

/// A shim names the tool it runs: shims of one installation for two
/// different tools differ.
pub proof fn law_shim_identifies_tool(root: Seq<char>, n1: Seq<char>, n2: Seq<char>)
    requires
        shim_contents(root, n1) == shim_contents(root, n2),
    ensures
        n1 == n2,
{
    law_shim_text(root, n1);
    law_shim_text(root, n2);
    let a = "#!/bin/sh\n"@ + "export RUSTV_PATH="@ + root + "\n"@
        + "export DYLD_LIBRARY_PATH=$RUSTV_PATH/versions/`cat $RUSTV_PATH/current_version`/lib"@
        + "\n"@ + "$RUSTV_PATH/versions/`cat $RUSTV_PATH/current_version`/bin/"@;
    let t = " $@"@;
    let c1 = a + n1 + t;
    let c2 = a + n2 + t;
    assert(shim_contents(root, n1) =~= c1);
    assert(shim_contents(root, n2) =~= c2);
    assert(n1.len() == n2.len());
    assert(c1.subrange(a.len() as int, a.len() + n1.len() as int) =~= n1);
    assert(c2.subrange(a.len() as int, a.len() + n2.len() as int) =~= n2);
}

/// The shim for a tool of the current version is named after that tool, and
/// stands directly in the installation's `bin` directory under that name.
pub proof fn law_shim_named_after_tool(root: Seq<char>, current: Seq<char>, tool: Seq<char>)
    requires
        is_plain(tool),
    ensures
        spec_file_name(normalize(path_join(path_join(current, "bin"@), tool))) == Some(tool),
        spec_file_name(path_join(path_join(root, "bin"@), tool)) == Some(tool),
{
    law_file_name_of_join(path_join(current, "bin"@), tool);
    law_file_name_of_join(path_join(root, "bin"@), tool);
}

} // verus!

verus! {

/// Chomping keeps a beginning of the text and drops one character for each
/// line break the text holds: no more, no fewer.
pub proof fn law_chomp_keeps_a_prefix(s: Seq<char>)
    ensures
        spec_chomp(s).len() + line_break_count(s) == s.len(),
        s.take(spec_chomp(s).len() as int) == spec_chomp(s),
{
    lemma_line_break_count_bound(s);
    assert(s.take(spec_chomp(s).len() as int) =~= spec_chomp(s));
}

/// Without a version file the current version is the system's Rust, and with
/// one it is the file's name with its line breaks chomped.
pub proof fn law_current_version_without_file(contents: Seq<char>)
    ensures
        spec_read_current_version(None) == "system"@,
        spec_read_current_version(Some(contents)) == spec_chomp(contents),
{
}

proof fn lemma_line_break_count_bound(s: Seq<char>)
    ensures
        line_break_count(s) <= s.len(),
    decreases s.len(),
{
    if s.len() > 0 {
        lemma_line_break_count_bound(s.drop_last());
    }
}

} // verus!
