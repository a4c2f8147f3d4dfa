//! The editor extension that installs the language server from the latest
//! GitHub release: which asset to fetch, where it is unpacked, which stale
//! installs to remove, and in what order the binary is looked for.

use vstd::prelude::*;
use vstd::string::*;
use crate::platform::{Os, Architecture, ArchiveKind, archive_kind, archive_kind_of, archive_extension, archive_extension_of};
use crate::text::str_eq;

verus! {

/// The name of the server binary inside a release.
pub open spec fn bin_name_of(os: Os) -> Seq<char> {
    if os == Os::Windows { "mago-lsp-server.exe"@ } else { "mago-lsp-server"@ }
}

/// The name of the server binary inside a release for `os`.
pub fn bin_name(os: Os) -> (r: &'static str)
    ensures
        r@ == bin_name_of(os),
{
    match os {
        Os::Windows => "mago-lsp-server.exe",
        _ => "mago-lsp-server",
    }
}

/// The repository the releases are published in.
pub fn github_repo() -> (r: &'static str)
    ensures
        r@ == "LirimSakura/zed-php-mago"@,
{
    "LirimSakura/zed-php-mago"
}

/// The operating system part of a release asset's name.
pub open spec fn os_label(os: Os) -> Seq<char> {
    match os {
        Os::Mac => "darwin"@,
        Os::Linux => "linux"@,
        Os::Windows => "windows"@,
    }
}

/// The architecture part of a release asset's name.
pub open spec fn arch_label(arch: Architecture) -> Seq<char> {
    match arch {
        Architecture::Aarch64 => "arm64"@,
        Architecture::X86 => "amd64"@,
        Architecture::X8664 => "amd64"@,
    }
}

/// The name of the release asset for a platform.
pub open spec fn asset_name_of(os: Os, arch: Architecture) -> Seq<char> {
    "mago-lsp-server-"@ + os_label(os) + "-"@ + arch_label(arch) + "."@ + archive_extension_of(os)
}

/// The progress shown for the server's installation.
#[derive(Debug, Clone, PartialEq, Eq)]
pub enum Status {
    /// No installation in progress.
    Idle,
    Downloading,
    Failed(String),
}

/// Where the release `version` goes for a platform.
pub struct UpdatePlan {
    /// The release asset to fetch.
    pub asset_name: String,
    /// The directory it is unpacked into.
    pub version_dir: String,
    /// Where the binary lies once unpacked.
    pub binary_path: String,
    /// The kind of archive the asset is.
    pub kind: ArchiveKind,
}

/// A step in finding the server binary.
pub enum BinaryEvent {
    Start,
    /// What looking the binary up on the worktree's search path gave.
    WhichAnswered(Option<String>),
    /// Whether the cached path names an existing file.
    CachedChecked(bool),
    /// What looking for an earlier install in the working directory gave.
    InstalledScanned(Option<String>),
    /// How installing the latest release went.
    Updated(Result<String, String>),
}

/// What to do next in finding the server binary.
pub enum BinaryAction {
    /// Look this binary up on the worktree's search path.
    Which(String),
    /// Tell whether this cached path names an existing file.
    CheckCached(String),
    /// Look for an earlier install in the working directory.
    ScanInstalled,
    /// Install the latest release, then use this earlier install whatever
    /// came of it.
    UpdateThenUse(String),
    /// Install the latest release.
    Update,
    /// The search is over; set the installation status first where given.
    Done { result: Result<String, String>, status: Option<Status> },
}

/// A step in installing the latest release.
pub enum UpdateEvent {
    Start,
    /// The latest release: its version and the names of its assets, or why
    /// it could not be had.
    ReleaseFetched(Result<(String, Vec<String>), String>),
    /// Whether the release's binary is already unpacked.
    BinaryChecked(bool),
    /// The installation status was set.
    StatusSet,
    /// How fetching and unpacking the asset went.
    Downloaded(Result<(), String>),
    /// The working directory could not be listed.
    ListingFailed(String),
    /// An entry of the working directory could not be read.
    EntryFailed(String),
    /// The stale entries of the working directory were removed.
    Cleaned,
}

/// What to do next in installing the latest release.
pub enum UpdateAction {
    /// Fetch the latest release of the repository.
    FetchRelease,
    /// Tell whether a file exists at this path.
    CheckBinary(String),
    /// Set the installation status.
    SetStatus(Status),
    /// Fetch the asset at this position among the release's assets and unpack
    /// it into `dir`.
    Download { asset: usize, dir: String, kind: ArchiveKind },
    /// Remove every entry of the working directory that `should_remove_entry`
    /// picks against `keep`.
    CleanDirectory { keep: String },
    /// The installation is over; set the installation status first where
    /// given.
    Done { result: Result<String, String>, status: Option<Status> },
}

/// An installation of the latest release for a platform, in progress.
pub struct UpdateTask {
    pub os: Os,
    pub arch: Architecture,
    /// Where the release goes, once it is known.
    pub plan: Option<UpdatePlan>,
    /// The names of the release's assets.
    pub asset_names: Vec<String>,
}

/// The extension.
pub struct MagoLspExtension {
    /// The path of the binary last installed.
    pub cached_binary_path: Option<String>,
}

fn joined(s: String, suffix: &str) -> (r: String)
    ensures
        r@ == s@ + suffix@,
{
    let mut s = s;
    s.append(suffix);
    s
}

impl UpdatePlan {
    /// Where the release `version` goes on `os` and `arch`: the asset
    /// `mago-lsp-server-<os>-<arch>.<ext>`, unpacked into
    /// `php-mago-<version>`, the binary inside it.
    pub fn new(os: Os, arch: Architecture, version: &str) -> (p: Self)
        ensures
            p.asset_name@ == asset_name_of(os, arch),
            p.version_dir@ == "php-mago-"@ + version@,
            p.binary_path@ == "php-mago-"@ + version@ + "/"@ + bin_name_of(os),
            p.kind == archive_kind_of(os),
    {
        let os_part = match os {
            Os::Mac => "darwin",
            Os::Linux => "linux",
            Os::Windows => "windows",
        };
        let arch_part = match arch {
            Architecture::Aarch64 => "arm64",
            Architecture::X86 => "amd64",
            Architecture::X8664 => "amd64",
        };
        let asset_name = joined(
            joined(joined(joined(joined(String::from_str("mago-lsp-server-"), os_part), "-"), arch_part), "."),
            archive_extension(os),
        );
        let version_dir = joined(String::from_str("php-mago-"), version);
        let binary_path = joined(joined(version_dir.clone(), "/"), bin_name(os));
        UpdatePlan { asset_name, version_dir, binary_path, kind: archive_kind(os) }
    }
}

/// The position of the first asset named `name`.
pub fn find_asset(asset_names: &Vec<String>, name: &str) -> (r: Option<usize>)
    ensures
        match r {
            Some(i) => i < asset_names@.len() && asset_names@[i as int]@ == name@
                && forall|j: int| 0 <= j < i ==> asset_names@[j]@ != name@,
            None => forall|j: int| 0 <= j < asset_names@.len() ==> asset_names@[j]@ != name@,
        },
{
    let mut i: usize = 0;
    while i < asset_names.len()
        invariant
            i <= asset_names@.len(),
            forall|j: int| 0 <= j < i ==> asset_names@[j]@ != name@,
        decreases asset_names@.len() - i,
    {
        if str_eq(asset_names[i].as_str(), name) {
            return Some(i);
        }
        i = i + 1;
    }
    None
}

/// After a new release was unpacked, every entry of the working directory is
/// removed but the one named like the release's directory (an entry whose
/// name is not valid Unicode is removed too).
pub fn should_remove_entry(entry_name: Option<&str>, version_dir: &str) -> (b: bool)
    ensures
        b == match entry_name {
            Some(n) => n@ != version_dir@,
            None => true,
        },
{
    match entry_name {
        Some(n) => !str_eq(n, version_dir),
        None => true,
    }
}

/// The error where the release has no asset for the platform. The asset
/// names built here hold no character that `Debug` escapes, so they show
/// between plain quotes.
pub fn no_asset_message(asset_name: &str) -> (m: String)
    ensures
        m@ == "no asset found matching \""@ + asset_name@ + "\""@,
{
    joined(joined(String::from_str("no asset found matching \""), asset_name), "\"")
}

/// The error where the asset could not be fetched.
pub fn download_failed_message(e: &str) -> (m: String)
    ensures
        m@ == "failed to download file: "@ + e@,
{
    joined(String::from_str("failed to download file: "), e)
}

/// The error where the working directory could not be listed.
pub fn list_failed_message(e: &str) -> (m: String)
    ensures
        m@ == "failed to list working directory "@ + e@,
{
    joined(String::from_str("failed to list working directory "), e)
}

/// The error where an entry of the working directory could not be read.
pub fn entry_failed_message(e: &str) -> (m: String)
    ensures
        m@ == "failed to load directory entry "@ + e@,
{
    joined(String::from_str("failed to load directory entry "), e)
}

/// `r` is what looking for an earlier install gives, given the directories of
/// the working directory in order, each with whether it holds the binary and
/// the binary's path (`None` where it is not valid Unicode): the path of the
/// first one holding the binary.
pub open spec fn is_installed_choice(dirs: Seq<(bool, Option<String>)>, r: Option<String>) -> bool {
    if exists|i: int| 0 <= i < dirs.len() && dirs[i].0 {
        exists|i: int| {
            &&& 0 <= i < dirs.len()
            &&& #[trigger] dirs[i].0
            &&& forall|j: int| 0 <= j < i ==> !dirs[j].0
            &&& r == dirs[i].1
        }
    } else {
        r is None
    }
}

/// Looks for an earlier install among the directories of the working
/// directory.
pub fn check_installed(dirs: &Vec<(bool, Option<String>)>) -> (r: Option<String>)
    ensures
        is_installed_choice(dirs@, r),
{
    let mut i: usize = 0;
    while i < dirs.len()
        invariant
            i <= dirs@.len(),
            forall|j: int| 0 <= j < i ==> !dirs@[j].0,
        decreases dirs@.len() - i,
    {
        if dirs[i].0 {
            let r = match &dirs[i].1 {
                Some(p) => Some(p.clone()),
                None => None,
            };
            assert(0 <= i < dirs@.len() && dirs@[i as int].0);
            assert(r == dirs@[i as int].1);
            return r;
        }
        i = i + 1;
    }
    None
}

impl UpdateTask {
    /// An installation for `os` and `arch` that has not started.
    pub fn new(os: Os, arch: Architecture) -> (t: Self)
        ensures
            t.os == os,
            t.arch == arch,
            t.plan is None,
            t.asset_names@.len() == 0,
    {
        UpdateTask { os, arch, plan: None, asset_names: Vec::new() }
    }

    /// One step of installing the latest release: the release is fetched;
    /// where its binary is already unpacked it is used; otherwise, with the
    /// status showing the download, its asset for the platform is fetched and
    /// unpacked, the working directory is cleared of everything else, and the
    /// status is cleared.
    pub fn check_to_update(&mut self, event: UpdateEvent) -> (a: UpdateAction)
        requires
            !(event is Start || event is ReleaseFetched) ==> old(self).plan is Some,
        ensures
            final(self).os == old(self).os,
            final(self).arch == old(self).arch,
            !(event is ReleaseFetched) ==> final(self).plan == old(self).plan
                && final(self).asset_names == old(self).asset_names,
            match event {
                UpdateEvent::Start => a == UpdateAction::FetchRelease,
                UpdateEvent::ReleaseFetched(Err(e)) => a == (UpdateAction::Done { result: Err(e), status: None }),
                UpdateEvent::ReleaseFetched(Ok((version, names))) => {
                    let p = final(self).plan->0;
                    &&& final(self).plan is Some
                    &&& p.asset_name@ == asset_name_of(old(self).os, old(self).arch)
                    &&& p.version_dir@ == "php-mago-"@ + version@
                    &&& p.binary_path@ == "php-mago-"@ + version@ + "/"@ + bin_name_of(old(self).os)
                    &&& p.kind == archive_kind_of(old(self).os)
                    &&& final(self).asset_names == names
                    &&& a == UpdateAction::CheckBinary(p.binary_path)
                },
                UpdateEvent::BinaryChecked(true) =>
                    a == (UpdateAction::Done { result: Ok(old(self).plan->0.binary_path), status: None }),
                UpdateEvent::BinaryChecked(false) => a == UpdateAction::SetStatus(Status::Downloading),
                UpdateEvent::StatusSet => {
                    let p = old(self).plan->0;
                    let names = old(self).asset_names@;
                    if exists|i: int| 0 <= i < names.len() && names[i]@ == p.asset_name@ {
                        a matches UpdateAction::Download { asset, dir, kind } && asset < names.len()
                            && names[asset as int]@ == p.asset_name@
                            && (forall|j: int| 0 <= j < asset ==> names[j]@ != p.asset_name@)
                            && dir == p.version_dir && kind == p.kind
                    } else {
                        a matches UpdateAction::Done { result: Err(m), status: None }
                            && m@ == "no asset found matching \""@ + p.asset_name@ + "\""@
                    }
                },
                UpdateEvent::Downloaded(Err(e)) => a matches UpdateAction::Done { result: Err(m), status: None }
                    && m@ == "failed to download file: "@ + e@,
                UpdateEvent::Downloaded(Ok(())) => a == UpdateAction::CleanDirectory { keep: old(self).plan->0.version_dir },
                UpdateEvent::ListingFailed(e) => a matches UpdateAction::Done { result: Err(m), status: None }
                    && m@ == "failed to list working directory "@ + e@,
                UpdateEvent::EntryFailed(e) => a matches UpdateAction::Done { result: Err(m), status: None }
                    && m@ == "failed to load directory entry "@ + e@,
                UpdateEvent::Cleaned => a == (UpdateAction::Done {
                    result: Ok(old(self).plan->0.binary_path),
                    status: Some(Status::Idle),
                }),
            },
    {
        match event {
            UpdateEvent::Start => UpdateAction::FetchRelease,
            UpdateEvent::ReleaseFetched(Err(e)) => UpdateAction::Done { result: Err(e), status: None },
            UpdateEvent::ReleaseFetched(Ok((version, names))) => {
                let plan = UpdatePlan::new(self.os, self.arch, version.as_str());
                let path = plan.binary_path.clone();
                self.plan = Some(plan);
                self.asset_names = names;
                UpdateAction::CheckBinary(path)
            },
            UpdateEvent::BinaryChecked(exists) => {
                let plan = self.plan.as_ref().unwrap();
                if exists {
                    UpdateAction::Done { result: Ok(plan.binary_path.clone()), status: None }
                } else {
                    UpdateAction::SetStatus(Status::Downloading)
                }
            },
            UpdateEvent::StatusSet => {
                let plan = self.plan.as_ref().unwrap();
                match find_asset(&self.asset_names, plan.asset_name.as_str()) {
                    Some(i) => UpdateAction::Download { asset: i, dir: plan.version_dir.clone(), kind: plan.kind },
                    None => UpdateAction::Done { result: Err(no_asset_message(plan.asset_name.as_str())), status: None },
                }
            },
            UpdateEvent::Downloaded(Err(e)) => {
                UpdateAction::Done { result: Err(download_failed_message(e.as_str())), status: None }
            },
            UpdateEvent::Downloaded(Ok(())) => {
                UpdateAction::CleanDirectory { keep: self.plan.as_ref().unwrap().version_dir.clone() }
            },
            UpdateEvent::ListingFailed(e) => {
                UpdateAction::Done { result: Err(list_failed_message(e.as_str())), status: None }
            },
            UpdateEvent::EntryFailed(e) => {
                UpdateAction::Done { result: Err(entry_failed_message(e.as_str())), status: None }
            },
            UpdateEvent::Cleaned => {
                UpdateAction::Done { result: Ok(self.plan.as_ref().unwrap().binary_path.clone()), status: Some(Status::Idle) }
            },
        }
    }
}

impl MagoLspExtension {
    /// An extension that has installed nothing yet.
    pub fn new() -> (e: Self)
        ensures
            e.cached_binary_path is None,
    {
        MagoLspExtension { cached_binary_path: None }
    }

    /// One step of finding the server binary on `os`: the binary on the
    /// worktree's search path first; then the cached install, where it still
    /// exists; then an earlier install in the working directory, used after
    /// trying to install the latest release; otherwise the latest release is
    /// installed and cached.
    pub fn language_server_binary_path(&mut self, os: Os, event: BinaryEvent) -> (a: BinaryAction)
        ensures
            match event {
                BinaryEvent::Start => final(self).cached_binary_path == old(self).cached_binary_path
                    && (a matches BinaryAction::Which(n) && n@ == bin_name_of(os)),
                BinaryEvent::WhichAnswered(Some(p)) => final(self).cached_binary_path == old(self).cached_binary_path
                    && a == (BinaryAction::Done { result: Ok(p), status: None }),
                BinaryEvent::WhichAnswered(None) => final(self).cached_binary_path == old(self).cached_binary_path
                    && match old(self).cached_binary_path {
                        Some(c) => a == BinaryAction::CheckCached(c),
                        None => a == BinaryAction::ScanInstalled,
                    },
                BinaryEvent::CachedChecked(is_file) => final(self).cached_binary_path == old(self).cached_binary_path
                    && if is_file && old(self).cached_binary_path is Some {
                        a == (BinaryAction::Done { result: Ok(old(self).cached_binary_path->0), status: Some(Status::Idle) })
                    } else {
                        a == BinaryAction::ScanInstalled
                    },
                BinaryEvent::InstalledScanned(Some(p)) => final(self).cached_binary_path == old(self).cached_binary_path
                    && a == BinaryAction::UpdateThenUse(p),
                BinaryEvent::InstalledScanned(None) => final(self).cached_binary_path == old(self).cached_binary_path
                    && a == BinaryAction::Update,
                BinaryEvent::Updated(Ok(p)) => final(self).cached_binary_path == Some(p)
                    && a == (BinaryAction::Done { result: Ok(p), status: None }),
                BinaryEvent::Updated(Err(e)) => final(self).cached_binary_path == old(self).cached_binary_path
                    && a == (BinaryAction::Done { result: Err(e), status: None }),
            },
    {
        match event {
            BinaryEvent::Start => BinaryAction::Which(bin_name(os).to_owned()),
            BinaryEvent::WhichAnswered(Some(p)) => BinaryAction::Done { result: Ok(p), status: None },
            BinaryEvent::WhichAnswered(None) => match &self.cached_binary_path {
                Some(c) => BinaryAction::CheckCached(c.clone()),
                None => BinaryAction::ScanInstalled,
            },
            BinaryEvent::CachedChecked(is_file) => {
                if is_file {
                    match &self.cached_binary_path {
                        Some(c) => {
                            return BinaryAction::Done { result: Ok(c.clone()), status: Some(Status::Idle) };
                        },
                        None => {},
                    }
                }
                BinaryAction::ScanInstalled
            },
            BinaryEvent::InstalledScanned(Some(p)) => BinaryAction::UpdateThenUse(p),
            BinaryEvent::InstalledScanned(None) => BinaryAction::Update,
            BinaryEvent::Updated(Ok(p)) => {
                self.cached_binary_path = Some(p.clone());
                BinaryAction::Done { result: Ok(p), status: None }
            },
            BinaryEvent::Updated(Err(e)) => BinaryAction::Done { result: Err(e), status: None },
        }
    }
}

} // verus!
