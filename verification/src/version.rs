//! A release of Rust: where it is fetched from, and how it is unpacked,
//! built and installed.

use vstd::prelude::*;

use crate::path::{
    join, path_join, normalize, normalize_path, is_absolute, lemma_normalize_idempotent,
    lemma_normalize_keeps_absolute,
};
use crate::shell::{CommandLine, CommandLineView, Shell};

verus! {

/// Whether a release is built from its sources or installed from binaries.
#[derive(Debug, Clone, Copy, PartialEq, Eq, Structural)]
pub enum BuildType {
    Source,
    Binary,
}

/// A release of Rust as the version listing describes it.
#[derive(Debug)]
pub struct Version {
    pub name: String,
    pub binary_url: String,
    pub source_url: String,
    pub cargo: bool,
    pub from_source: bool,
}

/// The serialization that `url::Url::parse` gives `input`, or `None` where it
/// refuses the input.
pub uninterp spec fn url_serialization(input: Seq<char>) -> Option<Seq<char>>;

/// Calls `url::Url::parse` on `input` and hands back the parsed URL's
/// serialization (`String::from(url)`), or `None` where the parse fails.
/// The contract says only that the result is the one that `url_serialization`
/// names for this input; the URL grammar itself is not stated.
#[verifier::external_body]
fn parse_url(input: &str) -> (r: Option<String>)
    ensures
        match r {
            Some(s) => url_serialization(input@) == Some(s@),
            None => url_serialization(input@) is None,
        },
{
    match url::Url::parse(input) {
        Ok(u) => Some(String::from(u)),
        Err(_) => None,
    }
}

/// The command that unpacks the archive at `archive` into `dest`, dropping the
/// archive's top directory.
pub open spec fn unpack_command(archive: Seq<char>, dest: Seq<char>) -> CommandLineView {
    CommandLineView {
        program: "tar"@,
        args: seq!["-xzvf"@, archive, "-C"@, dest, "--strip-components=1"@],
    }
}

/// The steps that build a release in `build_path` and install it under
/// `prefix`, each with whether a failure of that step aborts the program
/// (`true`) or is reported as an error (`false`).
pub open spec fn build_steps(
    build_path: Seq<char>,
    prefix: Seq<char>,
    version_name: Seq<char>,
    build_type: BuildType,
) -> Seq<(CommandLineView, bool)> {
    match build_type {
        BuildType::Source => seq![
            (
                CommandLineView {
                    program: path_join(build_path, "configure"@),
                    args: seq![normalize("--prefix="@ + path_join(prefix, version_name))],
                },
                true,
            ),
            (CommandLineView { program: "make"@, args: Seq::empty() }, true),
            (CommandLineView { program: "make"@, args: seq!["install"@] }, false),
        ],
        BuildType::Binary => seq![
            (
                CommandLineView {
                    program: path_join(build_path, "install.sh"@),
                    args: seq![normalize("--prefix="@ + normalize(prefix))],
                },
                false,
            ),
        ],
    }
}

/// Under an absolute temporary directory, a release is built in the very
/// directory that its archive was unpacked into, whatever its name.
pub proof fn law_build_in_unpacked_dir(tmpdir: Seq<char>, name: Seq<char>)
    requires
        is_absolute(tmpdir),
    ensures
        path_join(tmpdir, path_join(tmpdir, "source-"@ + name)) == path_join(
            tmpdir,
            "source-"@ + name,
        ),
{
    reveal_strlit("source-");
    let s = "source-"@ + name;
    assert(s[0] == 's');
    lemma_normalize_keeps_absolute(tmpdir);
    let t = normalize(tmpdir);
    assert((t + seq!['/'] + s)[0] == t[0]);
    lemma_normalize_keeps_absolute(t + seq!['/'] + s);
    let inner = path_join(tmpdir, s);
    lemma_normalize_idempotent(t + seq!['/'] + s);
    assert(is_absolute(inner));
}

/// Where a release's archive goes and how it is unpacked.
pub struct DownloadPlan {
    /// The URL to fetch, as the URL parser serializes it.
    pub url: String,
    /// The file that receives the archive.
    pub dl_path: String,
    /// The directory that receives the unpacked sources.
    pub source_path: String,
    /// The command that unpacks the archive, run only where `source_path`
    /// does not exist yet.
    pub unpack: Shell,
    /// The directory in which the release is then built.
    pub result: String,
}

/// One command of a build, and whether its failure aborts the program.
pub struct BuildStep {
    pub shell: Shell,
    pub panics_on_failure: bool,
}

/// The commands that build and install a release, run one after the other in
/// `working_dir`.
pub struct BuildPlan {
    pub working_dir: String,
    pub steps: Vec<BuildStep>,
}

/// Everything that installing a release takes: its download, then its build.
pub struct InstallPlan {
    pub download: DownloadPlan,
    pub build: BuildPlan,
}

impl BuildPlan {
    /// The plan's steps as commands and abort flags.
    pub open spec fn step_views(&self) -> Seq<(CommandLineView, bool)> {
        self.steps@.map_values(|s: BuildStep| (s.shell@, s.panics_on_failure))
    }
}

impl Version {
    /// The text of the URL that a build of this type is fetched from.
    pub open spec fn spec_download_url(&self, build_type: BuildType) -> Seq<char> {
        match build_type {
            BuildType::Source => self.source_url@,
            BuildType::Binary => self.binary_url@,
        }
    }

    /// Whether the URL for this build type parses.
    pub open spec fn url_parses(&self, build_type: BuildType) -> bool {
        url_serialization(self.spec_download_url(build_type)) is Some
    }

    /// The parsed URL that a build of this type is fetched from.
    pub open spec fn spec_url(&self, build_type: BuildType) -> Seq<char> {
        url_serialization(self.spec_download_url(build_type))->0
    }

    /// What `download` plans for this release under the temporary directory
    /// `tmpdir`.
    pub open spec fn download_plan_holds(
        &self,
        tmpdir: Seq<char>,
        build_type: BuildType,
        plan: DownloadPlan,
    ) -> bool {
        let dl_path = path_join(tmpdir, self.name@);
        let source_path = path_join(tmpdir, "source-"@ + self.name@);
        &&& plan.url@ == self.spec_url(build_type)
        &&& plan.dl_path@ == dl_path
        &&& plan.source_path@ == source_path
        &&& plan.unpack@ == unpack_command(dl_path, source_path)
        &&& plan.result@ == path_join(tmpdir, source_path)
    }

    /// How the listing says this release is installed: built from its
    /// sources where `from_source` is set, else from its binaries.
    pub fn build_type(&self) -> (r: BuildType)
        ensures
            r == (if self.from_source { BuildType::Source } else { BuildType::Binary }),
    {
        if self.from_source {
            BuildType::Source
        } else {
            BuildType::Binary
        }
    }

    /// The URL that a build of `build_type` is fetched from, as parsed.
    /// The program aborts on a URL that does not parse; this function asks
    /// for one that does (see `try_url`).
    pub fn url(&self, build_type: BuildType) -> (r: String)
        requires
            self.url_parses(build_type),
        ensures
            r@ == self.spec_url(build_type),
    {
        let text = match build_type {
            BuildType::Source => &self.source_url,
            BuildType::Binary => &self.binary_url,
        };
        parse_url(text.as_str()).unwrap()
    }

    /// The URL that a build of `build_type` is fetched from, or `None` where
    /// it does not parse.
    pub fn try_url(&self, build_type: BuildType) -> (r: Option<String>)
        ensures
            r is Some <==> self.url_parses(build_type),
            r matches Some(u) ==> u@ == self.spec_url(build_type),
    {
        let text = match build_type {
            BuildType::Source => &self.source_url,
            BuildType::Binary => &self.binary_url,
        };
        parse_url(text.as_str())
    }

    /// Plans the download of this release into the temporary directory
    /// `tmpdir`: the archive goes to `tmpdir/<name>` and is unpacked into
    /// `tmpdir/source-<name>`.
    pub fn download(&self, tmpdir: &str, build_type: BuildType) -> (r: DownloadPlan)
        requires
            self.url_parses(build_type),
        ensures
            self.download_plan_holds(tmpdir@, build_type, r),
    {
        let url = self.url(build_type);
        let dl_path = join(tmpdir, self.name.as_str());
        let source_name = String::from_str("source-").concat(self.name.as_str());
        let source_path = join(tmpdir, source_name.as_str());
        let mut tar = CommandLine::new("tar");
        tar.arg("-xzvf");
        tar.arg(dl_path.as_str());
        tar.arg("-C");
        tar.arg(source_path.as_str());
        tar.arg("--strip-components=1");
        assert(tar@.args =~= unpack_command(dl_path@, source_path@).args);
        let result = join(tmpdir, source_path.as_str());
        DownloadPlan { url, dl_path, source_path, unpack: Shell::new(tar), result }
    }

    /// Plans the build of release `version_name` in `build_path` and its
    /// installation under `prefix`.
    pub fn build_rust_in(
        &self,
        build_path: &str,
        prefix: &str,
        version_name: &str,
        build_type: BuildType,
    ) -> (r: BuildPlan)
        ensures
            r.working_dir@ == build_path@,
            r.step_views() == build_steps(build_path@, prefix@, version_name@, build_type),
    {
        let mut steps: Vec<BuildStep> = Vec::new();
        match build_type {
            BuildType::Source => {
                let configure_path = join(build_path, "configure");
                let mut configure = CommandLine::new(configure_path.as_str());
                let target = join(prefix, version_name);
                let prefix_arg = String::from_str("--prefix=").concat(target.as_str());
                let prefix_arg = normalize_path(prefix_arg.as_str());
                configure.arg(prefix_arg.as_str());
                steps.push(BuildStep { shell: Shell::new(configure), panics_on_failure: true });
                let make = CommandLine::new("make");
                steps.push(BuildStep { shell: Shell::new(make), panics_on_failure: true });
                let mut make_install = CommandLine::new("make");
                make_install.arg("install");
                steps.push(BuildStep { shell: Shell::new(make_install), panics_on_failure: false });
            },
            BuildType::Binary => {
                let install_path = join(build_path, "install.sh");
                let mut install = CommandLine::new(install_path.as_str());
                let prefix_path = normalize_path(prefix);
                let prefix_arg = String::from_str("--prefix=").concat(prefix_path.as_str());
                let prefix_arg = normalize_path(prefix_arg.as_str());
                install.arg(prefix_arg.as_str());
                steps.push(BuildStep { shell: Shell::new(install), panics_on_failure: false });
            },
        }
        let r = BuildPlan { working_dir: String::from_str(build_path), steps };
        assert(r.step_views() =~= build_steps(build_path@, prefix@, version_name@, build_type));
        r
    }

    /// Plans the installation of this release under `prefix`: its download
    /// into `tmpdir`, then its build in the unpacked directory. The download
    /// cache `download_path` is not used: archives always go to `tmpdir`.
    /// The plan has no step of its own for Cargo, and the release's `cargo`
    /// flag is not read: what gets installed is what the release's archive
    /// and its build install.
    pub fn install(
        &self,
        download_path: &str,
        tmpdir: &str,
        prefix: &str,
        build_type: BuildType,
    ) -> (r: InstallPlan)
        requires
            self.url_parses(build_type),
        ensures
            self.download_plan_holds(tmpdir@, build_type, r.download),
            r.build.working_dir@ == r.download.result@,
            r.build.step_views() == build_steps(
                r.download.result@,
                prefix@,
                self.name@,
                build_type,
            ),
    {
        let download = self.download(tmpdir, build_type);
        let build = self.build_rust_in(download.result.as_str(), prefix, self.name.as_str(), build_type);
        InstallPlan { download, build }
    }

    /// Plans the installation as `install` does, or gives `None` where the
    /// URL for `build_type` does not parse.
    pub fn try_install(
        &self,
        download_path: &str,
        tmpdir: &str,
        prefix: &str,
        build_type: BuildType,
    ) -> (r: Option<InstallPlan>)
        ensures
            r is Some <==> self.url_parses(build_type),
            r matches Some(p) ==> {
                &&& self.download_plan_holds(tmpdir@, build_type, p.download)
                &&& p.build.working_dir@ == p.download.result@
                &&& p.build.step_views() == build_steps(
                    p.download.result@,
                    prefix@,
                    self.name@,
                    build_type,
                )
            },
    {
        match self.try_url(build_type) {
            Some(_) => Some(self.install(download_path, tmpdir, prefix, build_type)),
            None => None,
        }
    }
}

} // verus!

verus! {

/// A binary release is installed with one `install.sh` step whose prefix is
/// the given prefix itself: the release's name plays no part in it, and a
/// failure of the step is reported, not fatal.
pub proof fn law_binary_prefix_ignores_version_name(
    build_path: Seq<char>,
    prefix: Seq<char>,
    name1: Seq<char>,
    name2: Seq<char>,
)
    ensures
        build_steps(build_path, prefix, name1, BuildType::Binary) == build_steps(
            build_path,
            prefix,
            name2,
            BuildType::Binary,
        ),
        build_steps(build_path, prefix, name1, BuildType::Binary).len() == 1,
        build_steps(build_path, prefix, name1, BuildType::Binary)[0].0.program == path_join(
            build_path,
            "install.sh"@,
        ),
        build_steps(build_path, prefix, name1, BuildType::Binary)[0].0.args == seq![
            normalize("--prefix="@ + normalize(prefix)),
        ],
        !build_steps(build_path, prefix, name1, BuildType::Binary)[0].1,
{
}

/// A source release is configured to install into the directory named after
/// it under the prefix, then built with `make` and installed with
/// `make install`; only the last step's failure is reported rather than fatal.
pub proof fn law_source_build_steps(build_path: Seq<char>, prefix: Seq<char>, name: Seq<char>)
    ensures
        build_steps(build_path, prefix, name, BuildType::Source).len() == 3,
        build_steps(build_path, prefix, name, BuildType::Source)[0] == (
            CommandLineView {
                program: path_join(build_path, "configure"@),
                args: seq![normalize("--prefix="@ + path_join(prefix, name))],
            },
            true,
        ),
        build_steps(build_path, prefix, name, BuildType::Source)[1] == (
            CommandLineView { program: "make"@, args: Seq::<Seq<char>>::empty() },
            true,
        ),
        build_steps(build_path, prefix, name, BuildType::Source)[2] == (
            CommandLineView { program: "make"@, args: seq!["install"@] },
            false,
        ),
{
}

/// Where the archive goes, where it is unpacked and how, and where the
/// release is then built do not depend on the build type.
pub proof fn law_download_ignores_build_type(
    v: Version,
    tmpdir: Seq<char>,
    p: DownloadPlan,
    q: DownloadPlan,
)
    requires
        v.download_plan_holds(tmpdir, BuildType::Source, p),
        v.download_plan_holds(tmpdir, BuildType::Binary, q),
    ensures
        p.unpack@ == q.unpack@,
        p.dl_path@ == q.dl_path@,
        p.source_path@ == q.source_path@,
        p.result@ == q.result@,
{
}

/// The archive is unpacked with `tar` from the file it was downloaded to into
/// the source directory, dropping the archive's top directory; under an
/// absolute temporary directory the release is then built in that source
/// directory.
pub proof fn law_unpack_into_source_dir(
    v: Version,
    tmpdir: Seq<char>,
    build_type: BuildType,
    p: DownloadPlan,
)
    requires
        v.download_plan_holds(tmpdir, build_type, p),
    ensures
        p.unpack@.program == "tar"@,
        p.unpack@.args == seq!["-xzvf"@, p.dl_path@, "-C"@, p.source_path@, "--strip-components=1"@],
        is_absolute(tmpdir) ==> p.result@ == p.source_path@,
{
    if is_absolute(tmpdir) {
        law_build_in_unpacked_dir(tmpdir, v.name@);
    }
}

} // verus!
