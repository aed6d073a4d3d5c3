//! Tool declarations, and the decisions of fetching and installing them: which
//! platform a download is for, its URL, where it goes, and what to install.
use vstd::prelude::*;

use crate::vec_map::VecMap;

verus! {

/// The platform a download is chosen for.
pub struct SystemInfoView {
    pub triple: Seq<char>,
    pub arch: Seq<char>,
    pub os: Seq<char>,
}

/// A platform: target triple, architecture and operating system.
#[derive(Debug, Clone, PartialEq, Eq)]
pub struct SystemInfo {
    pub triple: String,
    pub arch: String,
    pub os: String,
}

impl View for SystemInfo {
    type V = SystemInfoView;

    open spec fn view(&self) -> SystemInfoView {
        SystemInfoView { triple: self.triple@, arch: self.arch@, os: self.os@ }
    }
}

pub open spec fn opt_view(o: Option<String>) -> Option<Seq<char>> {
    match o {
        Some(s) => Some(s@),
        None => None,
    }
}

/// Platform fields that an override rule tests or sets; any may be left out.
#[derive(Debug, Clone, PartialEq, Eq, Default)]
pub struct DownloadOverrideInfo {
    pub triple: Option<String>,
    pub os: Option<String>,
    pub arch: Option<String>,
    pub ext: Option<String>,
}

/// An override rule: when `condition` matches the platform, `set` patches it.
#[derive(Debug, Clone, PartialEq, Eq)]
pub struct DownloadOverride {
    pub condition: DownloadOverrideInfo,
    pub set: DownloadOverrideInfo,
}

/// A rule's condition holds when any one of its triple, OS or architecture equals
/// the platform's.
pub open spec fn info_matches(info: DownloadOverrideInfo, system: SystemInfoView) -> bool {
    ||| opt_view(info.triple) == Some(system.triple)
    ||| opt_view(info.os) == Some(system.os)
    ||| opt_view(info.arch) == Some(system.arch)
}

/// The platform with the fields that `info` sets replaced.
pub open spec fn info_apply(system: SystemInfoView, info: DownloadOverrideInfo) -> SystemInfoView {
    SystemInfoView {
        triple: match info.triple {
            Some(t) => t@,
            None => system.triple,
        },
        arch: match info.arch {
            Some(a) => a@,
            None => system.arch,
        },
        os: match info.os {
            Some(o) => o@,
            None => system.os,
        },
    }
}

/// The platform and archive extension after the rules, applied in order: each rule
/// whose condition matches the platform as the earlier rules left it patches it.
pub open spec fn apply_overrides(system: SystemInfoView, ext: Seq<char>, rules: Seq<DownloadOverride>) -> (SystemInfoView, Seq<char>)
    decreases rules.len(),
{
    if rules.len() == 0 {
        (system, ext)
    } else {
        let (s, e) = apply_overrides(system, ext, rules.drop_last());
        let rule = rules.last();
        if info_matches(rule.condition, s) {
            (
                info_apply(s, rule.set),
                match rule.set.ext {
                    Some(x) => x@,
                    None => e,
                },
            )
        } else {
            (s, e)
        }
    }
}

/// `s` with every occurrence of `pattern` replaced by `with`, left to right, without
/// overlaps; an empty pattern changes nothing.
pub open spec fn replace_all(s: Seq<char>, pattern: Seq<char>, with: Seq<char>) -> Seq<char>
    decreases s.len(),
{
    if pattern.len() == 0 || s.len() < pattern.len() {
        s
    } else if s.take(pattern.len() as int) == pattern {
        with + replace_all(s.skip(pattern.len() as int), pattern, with)
    } else {
        seq![s[0]] + replace_all(s.skip(1), pattern, with)
    }
}

/// The download URL: the template with its placeholders filled in.
pub open spec fn resolve_url(template: Seq<char>, version: Seq<char>, system: SystemInfoView, ext: Seq<char>) -> Seq<char> {
    let u = replace_all(template, "#version#"@, version);
    let u = replace_all(u, "#triple#"@, system.triple);
    let u = replace_all(u, "#arch#"@, system.arch);
    let u = replace_all(u, "#os#"@, system.os);
    replace_all(u, "#ext#"@, ext)
}

impl DownloadOverrideInfo {
    /// Whether this condition holds on `system`.
    pub fn matches(&self, system: &SystemInfo) -> (r: bool)
        ensures
            r == info_matches(*self, system@),
    {
        let triple = match &self.triple {
            Some(t) => *t == system.triple,
            None => false,
        };
        let os = match &self.os {
            Some(o) => *o == system.os,
            None => false,
        };
        let arch = match &self.arch {
            Some(a) => *a == system.arch,
            None => false,
        };
        triple || os || arch
    }
}

impl SystemInfo {
    /// Replaces the fields that `from` sets.
    pub fn apply(&mut self, from: &DownloadOverrideInfo)
        ensures
            final(self)@ == info_apply(old(self)@, *from),
    {
        if let Some(triple) = &from.triple {
            self.triple = triple.clone();
        }
        if let Some(arch) = &from.arch {
            self.arch = arch.clone();
        }
        if let Some(os) = &from.os {
            self.os = os.clone();
        }
    }
}

/// How a tool is provided.
#[derive(Debug, Clone, PartialEq, Eq)]
pub enum Install {
    /// Fetched from a URL template and unpacked.
    Download { version: String, url: String, ext: String, overrides: Vec<DownloadOverride> },
    /// Provided by the system, at a local path or by a workflow action.
    System { local_path: Option<String>, install_action: Option<String> },
}

/// An external tool that the project's tasks use.
#[derive(Debug, Clone, PartialEq, Eq)]
pub struct Tool {
    pub deps: Vec<String>,
    pub install: Install,
}

/// What fetching and installing one tool takes.
pub struct DownloadJobView {
    pub name: Seq<char>,
    pub version: Seq<char>,
    pub ext: Seq<char>,
    pub url: Seq<char>,
    pub install_dir: Seq<char>,
    pub archive: Seq<char>,
}

/// One tool to fetch and install.
#[derive(Debug, Clone, PartialEq, Eq)]
pub struct DownloadJob {
    pub name: String,
    pub version: String,
    pub ext: String,
    pub url: String,
    pub install_dir: String,
    pub archive: String,
}

impl View for DownloadJob {
    type V = DownloadJobView;

    open spec fn view(&self) -> DownloadJobView {
        DownloadJobView {
            name: self.name@,
            version: self.version@,
            ext: self.ext@,
            url: self.url@,
            install_dir: self.install_dir@,
            archive: self.archive@,
        }
    }
}

/// The job for a tool named `name`, if it is downloaded: the platform and extension
/// after its rules, the URL from its template, the versioned install directory under
/// `state`, and the cached archive.
pub open spec fn job_for(state: Seq<char>, host: SystemInfoView, name: Seq<char>, tool: Tool) -> Option<DownloadJobView> {
    match tool.install {
        Install::Download { version, url, ext, overrides } => {
            let (system, e) = apply_overrides(host, ext@, overrides@);
            Some(
                DownloadJobView {
                    name,
                    version: version@,
                    ext: e,
                    url: resolve_url(url@, version@, system, e),
                    install_dir: state + "/tools/"@ + name + "/"@ + version@,
                    archive: state + "/downloads/"@ + name + "/"@ + version@ + "."@ + e,
                },
            )
        },
        Install::System { .. } => None,
    }
}

/// The jobs for the first `n` tools, in declaration order.
pub open spec fn jobs_before(state: Seq<char>, host: SystemInfoView, tools: Seq<(Seq<char>, Tool)>, n: int) -> Seq<DownloadJobView>
    decreases n,
{
    if n <= 0 {
        Seq::empty()
    } else {
        let before = jobs_before(state, host, tools, n - 1);
        match job_for(state, host, tools[n - 1].0, tools[n - 1].1) {
            Some(j) => before.push(j),
            None => before,
        }
    }
}

/// Whether the characters of `s` from `i` on start with `pattern`.
fn starts_at(s: &str, i: usize, pattern: &str) -> (r: bool)
    requires
        i <= s@.len(),
    ensures
        r == (s@.len() - i >= pattern@.len() && s@.skip(i as int).take(pattern@.len() as int) == pattern@),
{
    let n = s.unicode_len();
    let m = pattern.unicode_len();
    if n - i < m {
        return false;
    }
    let part = s.substring_char(i, i + m).to_owned();
    assert(s@.skip(i as int).take(m as int) =~= s@.subrange(i as int, i + m));
    part == pattern.to_owned()
}

/// Replaces every occurrence of `pattern` in `s` by `with`, as `replace_all` states.
pub fn replace_all_exec(s: &str, pattern: &str, with: &str) -> (r: String)
    ensures
        r@ == replace_all(s@, pattern@, with@),
{
    let n = s.unicode_len();
    let m = pattern.unicode_len();
    let mut out = String::new();
    if m == 0 {
        return s.to_owned();
    }
    let mut i: usize = 0;
    assert(s@.skip(0) =~= s@);
    while i < n
        invariant
            i <= n,
            n == s@.len(),
            m == pattern@.len(),
            m > 0,
            out@ + replace_all(s@.skip(i as int), pattern@, with@) == replace_all(s@, pattern@, with@),
        decreases n - i,
    {
        let ghost rest = s@.skip(i as int);
        let ghost before = out@;
        if starts_at(s, i, pattern) {
            out.append(with);
            proof {
                assert(rest.skip(m as int) =~= s@.skip(i + m));
                assert(replace_all(rest, pattern@, with@) == with@ + replace_all(rest.skip(m as int), pattern@, with@));
                assert(out@ + replace_all(s@.skip(i + m), pattern@, with@) =~= before + replace_all(rest, pattern@, with@));
            }
            i = i + m;
        } else {
            let c = s.substring_char(i, i + 1);
            out.append(c);
            proof {
                assert(c@ =~= seq![rest[0]]);
                assert(rest.skip(1) =~= s@.skip(i + 1));
                if rest.len() < m {
                    assert(replace_all(rest.skip(1), pattern@, with@) == rest.skip(1));
                    assert(rest =~= seq![rest[0]] + rest.skip(1));
                }
                assert(replace_all(rest, pattern@, with@) == seq![rest[0]] + replace_all(rest.skip(1), pattern@, with@));
                assert(out@ + replace_all(s@.skip(i + 1), pattern@, with@) =~= before + replace_all(rest, pattern@, with@));
            }
            i = i + 1;
        }
    }
    assert(replace_all(s@.skip(n as int), pattern@, with@) =~= Seq::<char>::empty());
    assert(out@ =~= out@ + Seq::<char>::empty());
    out
}

impl SystemInfo {
    /// A copy of this platform.
    pub fn duplicate(&self) -> (r: SystemInfo)
        ensures
            r@ == self@,
    {
        SystemInfo { triple: self.triple.clone(), arch: self.arch.clone(), os: self.os.clone() }
    }
}

/// The platform and extension after `rules`, as `apply_overrides` states.
fn apply_rules(host: &SystemInfo, ext: &String, rules: &Vec<DownloadOverride>) -> (r: (SystemInfo, String))
    ensures
        (r.0@, r.1@) == apply_overrides(host@, ext@, rules@),
{
    let mut system = host.duplicate();
    let mut e = ext.clone();
    let mut i: usize = 0;
    assert(rules@.take(0) =~= Seq::<DownloadOverride>::empty());
    while i < rules.len()
        invariant
            i <= rules@.len(),
            (system@, e@) == apply_overrides(host@, ext@, rules@.take(i as int)),
        decreases rules@.len() - i,
    {
        let rule = &rules[i];
        assert(rules@.take(i as int + 1).drop_last() =~= rules@.take(i as int));
        assert(rules@.take(i as int + 1).last() == *rule);
        if rule.condition.matches(&system) {
            system.apply(&rule.set);
            if let Some(x) = &rule.set.ext {
                e = x.clone();
            }
        }
        i = i + 1;
    }
    assert(rules@.take(i as int) =~= rules@);
    (system, e)
}

/// `a` followed by `b`.
fn concat(a: &str, b: &str) -> (r: String)
    ensures
        r@ == a@ + b@,
{
    let mut out = a.to_owned();
    out.append(b);
    out
}

/// The job for one tool, as `job_for` states.
fn job_of(state: &str, host: &SystemInfo, name: &str, tool: &Tool) -> (r: Option<DownloadJob>)
    ensures
        match job_for(state@, host@, name@, *tool) {
            None => r is None,
            Some(j) => r matches Some(job) && job@ == j,
        },
{
    match &tool.install {
        Install::Download { version, url, ext, overrides } => {
            let (system, e) = apply_rules(host, ext, overrides);
            let u = replace_all_exec(url.as_str(), "#version#", version.as_str());
            let u = replace_all_exec(u.as_str(), "#triple#", system.triple.as_str());
            let u = replace_all_exec(u.as_str(), "#arch#", system.arch.as_str());
            let u = replace_all_exec(u.as_str(), "#os#", system.os.as_str());
            let u = replace_all_exec(u.as_str(), "#ext#", e.as_str());
            let install_dir = concat(concat(concat(concat(state, "/tools/").as_str(), name).as_str(), "/").as_str(), version.as_str());
            let archive = concat(
                concat(concat(concat(concat(concat(state, "/downloads/").as_str(), name).as_str(), "/").as_str(), version.as_str()).as_str(), ".").as_str(),
                e.as_str(),
            );
            Some(DownloadJob { name: name.to_owned(), version: version.clone(), ext: e, url: u, install_dir, archive })
        },
        Install::System { .. } => None,
    }
}

/// The tools of a project, and the directory they are fetched and installed under.
pub struct DownloadManager<'a> {
    state: String,
    tools: &'a VecMap<Tool>,
}

impl<'a> DownloadManager<'a> {
    pub fn new(state: String, tools: &'a VecMap<Tool>) -> (r: DownloadManager<'a>)
        ensures
            r.state_view() == state@,
            r.tools_view() == tools@,
    {
        DownloadManager { state, tools }
    }

    pub closed spec fn state_view(&self) -> Seq<char> {
        self.state@
    }

    pub closed spec fn tools_view(&self) -> Seq<(Seq<char>, Tool)> {
        self.tools@
    }

    /// The directory tools are installed under.
    pub fn state(&self) -> (r: &str)
        ensures
            r@ == self.state_view(),
    {
        self.state.as_str()
    }

    /// One job per downloaded tool, in declaration order, for a host platform `host`.
    /// System tools need no job.
    pub fn jobs(&self, host: &SystemInfo) -> (r: Vec<DownloadJob>)
        ensures
            r@.map_values(|j: DownloadJob| j@) == jobs_before(self.state_view(), host@, self.tools_view(), self.tools_view().len() as int),
    {
        let mut out: Vec<DownloadJob> = Vec::new();
        let n = self.tools.len();
        let mut i: usize = 0;
        while i < n
            invariant
                i <= n,
                n == self.tools@.len(),
                out@.map_values(|j: DownloadJob| j@) == jobs_before(self.state@, host@, self.tools@, i as int),
            decreases n - i,
        {
            let name = self.tools.key_by_index(i);
            let tool = self.tools.get_by_index(i).unwrap();
            let ghost before = out@;
            match job_of(self.state.as_str(), host, name, tool) {
                Some(job) => {
                    out.push(job);
                    assert(out@.map_values(|j: DownloadJob| j@) =~= before.map_values(|j: DownloadJob| j@).push(job@));
                },
                None => {},
            }
            i = i + 1;
        }
        out
    }
}

/// The archive formats that can be unpacked.
#[derive(Debug, Clone, Copy, PartialEq, Eq, Structural)]
pub enum ArchiveFormat {
    TarGz,
}

/// Why a tool cannot be installed.
#[derive(Debug, Clone, PartialEq, Eq)]
pub enum InstallError {
    /// An archive extension that cannot be unpacked.
    UnsupportedFormat(String),
}

/// How to unpack an archive with extension `ext`: only `tar.gz` can be.
pub fn archive_format(ext: &str) -> (r: Result<ArchiveFormat, InstallError>)
    ensures
        ext@ == "tar.gz"@ ==> r == Ok::<ArchiveFormat, InstallError>(ArchiveFormat::TarGz),
        ext@ != "tar.gz"@ ==> (r matches Err(InstallError::UnsupportedFormat(e)) && e@ == ext@),
{
    if ext.to_owned() == "tar.gz".to_owned() {
        Ok(ArchiveFormat::TarGz)
    } else {
        Err(InstallError::UnsupportedFormat(ext.to_owned()))
    }
}

/// Whether an unpacked archive's single top-level entry is the payload: there is
/// exactly one entry and it is a directory. `entry_is_dir` tells, for each top-level
/// entry, whether it is a directory.
pub fn strip_outer(entry_is_dir: &[bool]) -> (r: bool)
    ensures
        r == (entry_is_dir@.len() == 1 && entry_is_dir@[0]),
{
    entry_is_dir.len() == 1 && entry_is_dir[0]
}

/// What a tool job does, given what is on disk.
#[derive(Debug, Clone, Copy, PartialEq, Eq, Structural)]
pub enum InstallAction {
    /// The version is installed: nothing to do.
    Skip,
    /// The archive is cached: unpack and install it.
    Unpack,
    /// Fetch the archive, then unpack and install it.
    FetchAndUnpack,
}

pub open spec fn install_action_of(installed: bool, downloaded: bool) -> InstallAction {
    if installed {
        InstallAction::Skip
    } else if downloaded {
        InstallAction::Unpack
    } else {
        InstallAction::FetchAndUnpack
    }
}

/// What is on disk for one tool version after a job with `action` succeeded: a fetch
/// leaves the archive cached, and any job leaves the version installed.
pub open spec fn after_success(installed: bool, downloaded: bool) -> (bool, bool) {
    match install_action_of(installed, downloaded) {
        InstallAction::Skip => (installed, downloaded),
        InstallAction::Unpack => (true, downloaded),
        InstallAction::FetchAndUnpack => (true, true),
    }
}

/// Decides a tool job: an installed version is skipped, a cached archive is not
/// fetched again.
pub fn install_action(installed: bool, downloaded: bool) -> (r: InstallAction)
    ensures
        r == install_action_of(installed, downloaded),
{
    if installed {
        InstallAction::Skip
    } else if downloaded {
        InstallAction::Unpack
    } else {
        InstallAction::FetchAndUnpack
    }
}

/// Running a tool job again after it succeeded does nothing: in particular it fetches
/// nothing.
pub proof fn lemma_second_run_is_skipped(installed: bool, downloaded: bool)
    ensures
        ({
            let (i, d) = after_success(installed, downloaded);
            install_action_of(i, d) == InstallAction::Skip
        }),
{
}

/// Observer of download progress: `start` is called once per fetched tool when its
/// size is known, or known to be unknown.
pub trait DownloadProgress {
    type Bar: DownloadProgressBar;

    fn start(&self, name: &str, len: Option<u64>) -> Self::Bar;
}

/// Progress of one download: `update` after each chunk with its size, `done` once
/// the file is complete.
pub trait DownloadProgressBar {
    fn update(&mut self, delta: u64);

    fn done(self);
}

} // verus!
