//! The editor extension that launches the language server: which binary to
//! run on which platform, where it is found or downloaded to, and the options
//! the server is started with.

use vstd::prelude::*;
use vstd::string::*;
use crate::platform::{Os, Architecture, ArchiveKind, archive_kind, archive_kind_of, archive_extension, archive_extension_of};
use crate::json::{JsonValue, field, string_of, array_of};
use crate::text::{str_eq, is_blank, is_blank_str};

verus! {

/// The identifier of the language server that the extension provides.
pub open spec fn server_id() -> Seq<char> {
    "mago"@
}

/// The name of the language server binary released for a platform.
pub open spec fn platform_binary_name(os: Os, arch: Architecture) -> Seq<char> {
    match (os, arch) {
        (Os::Windows, Architecture::X8664) => "mago-lsp-server-windows-x64.exe"@,
        (Os::Windows, Architecture::Aarch64) => "mago-lsp-server-windows-arm64.exe"@,
        (Os::Windows, _) => "mago-lsp-server.exe"@,
        (Os::Mac, Architecture::Aarch64) => "mago-lsp-server-macos-arm64"@,
        (Os::Mac, Architecture::X8664) => "mago-lsp-server-macos-x64"@,
        (Os::Mac, _) => "mago-lsp-server"@,
        (Os::Linux, Architecture::X8664) => "mago-lsp-server-linux-x64"@,
        (Os::Linux, Architecture::Aarch64) => "mago-lsp-server-linux-arm64"@,
        (Os::Linux, _) => "mago-lsp-server"@,
    }
}

/// The directory a release of `version` is unpacked into.
pub open spec fn version_dir_of(version: Seq<char>) -> Seq<char> {
    "php-mago-"@ + version
}

/// Where the binary `binary_name` of release `version` lies once unpacked.
pub open spec fn binary_path_of(version: Seq<char>, binary_name: Seq<char>) -> Seq<char> {
    version_dir_of(version) + "/"@ + binary_name
}

/// The address of the archive of `binary_name` in release `version`.
pub open spec fn release_url_of(version: Seq<char>, binary_name: Seq<char>, os: Os) -> Seq<char> {
    "https://github.com/LirimSakura/zed-php-mago/releases/download/"@ + version + "/"@
        + binary_name + "."@ + archive_extension_of(os)
}

/// A step in finding the server binary.
pub enum BinaryEvent {
    /// The search starts.
    Start,
    /// Whether the cached path still names an existing file.
    CachedChecked(bool),
    /// What looking the binary up on the worktree's search path gave.
    WhichAnswered(Option<String>),
    /// How downloading the binary went.
    Downloaded(Result<String, String>),
}

/// What to do next in finding the server binary.
pub enum BinaryAction {
    /// Tell whether this cached path still exists.
    CheckCached(String),
    /// Look this binary up on the worktree's search path.
    Which(String),
    /// Download this binary.
    Download(String),
    /// The search is over.
    Done(Result<String, String>),
}

/// A step in downloading the server binary.
pub enum DownloadEvent {
    Start,
    /// Whether the binary already exists where it is unpacked to.
    BinaryChecked(bool),
    /// How fetching and unpacking the release archive went.
    Fetched(Result<(), String>),
    /// Whether the binary exists after unpacking.
    Extracted(bool),
    /// How making the binary executable went.
    PermissionsSet(Result<(), String>),
}

/// What to do next in downloading the server binary.
pub enum DownloadAction {
    /// Tell whether a file exists at this path.
    CheckBinary(String),
    /// Fetch the archive at `url` and unpack it into `dir`.
    Fetch { url: String, dir: String, kind: ArchiveKind },
    /// Tell whether the binary exists at this path after unpacking.
    CheckExtracted(String),
    /// Make the file at this path executable (on Unix-like systems).
    SetPermissions(String),
    /// The download is over.
    Done(Result<String, String>),
}

/// The language server as the extension knows it.
pub struct MagoLspServer {
    /// The path the binary was last found at.
    pub cached_binary_path: Option<String>,
}

/// The extension.
pub struct MagoLspExtension {
    /// The language server, once one was asked for.
    pub mago_lsp: Option<MagoLspServer>,
}

/// `s` with `suffix` appended.
fn joined(s: String, suffix: &str) -> (r: String)
    ensures
        r@ == s@ + suffix@,
{
    let mut s = s;
    s.append(suffix);
    s
}

/// The directory a release of `version` is unpacked into.
pub fn version_dir(version: &str) -> (r: String)
    ensures
        r@ == version_dir_of(version@),
{
    joined(String::from_str("php-mago-"), version)
}

impl MagoLspServer {
    /// A server whose binary has not been looked for yet.
    pub fn new() -> (s: Self)
        ensures
            s.cached_binary_path is None,
    {
        MagoLspServer { cached_binary_path: None }
    }

    /// The identifier of the language server.
    pub fn language_server_id() -> (r: &'static str)
        ensures
            r@ == server_id(),
    {
        "mago"
    }

    /// The name of the language server binary released for a platform.
    pub fn get_platform_binary_name(os: Os, arch: Architecture) -> (r: String)
        ensures
            r@ == platform_binary_name(os, arch),
    {
        let name = match (os, arch) {
            (Os::Windows, Architecture::X8664) => "mago-lsp-server-windows-x64.exe",
            (Os::Windows, Architecture::Aarch64) => "mago-lsp-server-windows-arm64.exe",
            (Os::Windows, _) => "mago-lsp-server.exe",
            (Os::Mac, Architecture::Aarch64) => "mago-lsp-server-macos-arm64",
            (Os::Mac, Architecture::X8664) => "mago-lsp-server-macos-x64",
            (Os::Mac, _) => "mago-lsp-server",
            (Os::Linux, Architecture::X8664) => "mago-lsp-server-linux-x64",
            (Os::Linux, Architecture::Aarch64) => "mago-lsp-server-linux-arm64",
            (Os::Linux, _) => "mago-lsp-server",
        };
        name.to_owned()
    }

    /// One step of finding the binary on `os` and `arch`: a cached path that
    /// still exists is used; otherwise the binary found on the worktree's
    /// search path; otherwise a downloaded one. A path found or downloaded is
    /// cached.
    pub fn language_server_binary_path(&mut self, os: Os, arch: Architecture, event: BinaryEvent) -> (a: BinaryAction)
        ensures
            match event {
                BinaryEvent::Start => final(self).cached_binary_path == old(self).cached_binary_path
                    && match old(self).cached_binary_path {
                        Some(p) => a == BinaryAction::CheckCached(p),
                        None => (a matches BinaryAction::Which(n) && n@ == platform_binary_name(os, arch)),
                    },
                BinaryEvent::CachedChecked(exists) => final(self).cached_binary_path == old(self).cached_binary_path
                    && if exists && old(self).cached_binary_path is Some {
                        a == BinaryAction::Done(Ok(old(self).cached_binary_path->0))
                    } else {
                        (a matches BinaryAction::Which(n) && n@ == platform_binary_name(os, arch))
                    },
                BinaryEvent::WhichAnswered(Some(p)) =>
                    final(self).cached_binary_path == Some(p) && a == BinaryAction::Done(Ok(p)),
                BinaryEvent::WhichAnswered(None) => final(self).cached_binary_path == old(self).cached_binary_path
                    && (a matches BinaryAction::Download(n) && n@ == platform_binary_name(os, arch)),
                BinaryEvent::Downloaded(Ok(p)) =>
                    final(self).cached_binary_path == Some(p) && a == BinaryAction::Done(Ok(p)),
                BinaryEvent::Downloaded(Err(e)) => final(self).cached_binary_path == old(self).cached_binary_path
                    && a == BinaryAction::Done(Err(e)),
            },
    {
        match event {
            BinaryEvent::Start => match &self.cached_binary_path {
                Some(p) => BinaryAction::CheckCached(p.clone()),
                None => BinaryAction::Which(Self::get_platform_binary_name(os, arch)),
            },
            BinaryEvent::CachedChecked(exists) => {
                if exists {
                    match &self.cached_binary_path {
                        Some(p) => return BinaryAction::Done(Ok(p.clone())),
                        None => {},
                    }
                }
                BinaryAction::Which(Self::get_platform_binary_name(os, arch))
            },
            BinaryEvent::WhichAnswered(Some(p)) => {
                self.cached_binary_path = Some(p.clone());
                BinaryAction::Done(Ok(p))
            },
            BinaryEvent::WhichAnswered(None) => BinaryAction::Download(Self::get_platform_binary_name(os, arch)),
            BinaryEvent::Downloaded(Ok(p)) => {
                self.cached_binary_path = Some(p.clone());
                BinaryAction::Done(Ok(p))
            },
            BinaryEvent::Downloaded(Err(e)) => BinaryAction::Done(Err(e)),
        }
    }

    /// One step of downloading the binary `binary_name` of release `version`
    /// for `os`: nothing is fetched where the binary is already unpacked;
    /// otherwise the release archive is fetched and unpacked, the binary must
    /// then exist, and it is made executable.
    pub fn download_binary(version: &str, binary_name: &str, os: Os, event: DownloadEvent) -> (a: DownloadAction)
        ensures
            ({
                let path = binary_path_of(version@, binary_name@);
                match event {
                    DownloadEvent::Start => a matches DownloadAction::CheckBinary(p) && p@ == path,
                    DownloadEvent::BinaryChecked(true) => a matches DownloadAction::Done(Ok(p)) && p@ == path,
                    DownloadEvent::BinaryChecked(false) => a matches DownloadAction::Fetch { url, dir, kind }
                        && url@ == release_url_of(version@, binary_name@, os)
                        && dir@ == version_dir_of(version@)
                        && kind == archive_kind_of(os),
                    DownloadEvent::Fetched(Err(e)) => a matches DownloadAction::Done(Err(m))
                        && m@ == "Failed to download binary from release: "@ + e@ + ". Please ensure the release "@
                            + version@ + " exists with assets."@,
                    DownloadEvent::Fetched(Ok(())) => a matches DownloadAction::CheckExtracted(p) && p@ == path,
                    DownloadEvent::Extracted(false) => a matches DownloadAction::Done(Err(m))
                        && m@ == "Binary not found after extraction. Expected at: "@ + path,
                    DownloadEvent::Extracted(true) => a matches DownloadAction::SetPermissions(p) && p@ == path,
                    DownloadEvent::PermissionsSet(Err(e)) => a matches DownloadAction::Done(Err(m))
                        && m@ == "Failed to set binary permissions: "@ + e@,
                    DownloadEvent::PermissionsSet(Ok(())) => a matches DownloadAction::Done(Ok(p)) && p@ == path,
                }
            }),
    {
        let dir = version_dir(version);
        let path = joined(joined(dir.clone(), "/"), binary_name);
        match event {
            DownloadEvent::Start => DownloadAction::CheckBinary(path),
            DownloadEvent::BinaryChecked(true) => DownloadAction::Done(Ok(path)),
            DownloadEvent::BinaryChecked(false) => {
                let url = joined(
                    joined(
                        joined(
                            joined(
                                joined(String::from_str("https://github.com/LirimSakura/zed-php-mago/releases/download/"), version),
                                "/",
                            ),
                            binary_name,
                        ),
                        ".",
                    ),
                    archive_extension(os),
                );
                DownloadAction::Fetch { url, dir, kind: archive_kind(os) }
            },
            DownloadEvent::Fetched(Err(e)) => {
                let m = joined(
                    joined(
                        joined(joined(String::from_str("Failed to download binary from release: "), e.as_str()), ". Please ensure the release "),
                        version,
                    ),
                    " exists with assets.",
                );
                DownloadAction::Done(Err(m))
            },
            DownloadEvent::Fetched(Ok(())) => DownloadAction::CheckExtracted(path),
            DownloadEvent::Extracted(false) => {
                DownloadAction::Done(Err(joined(String::from_str("Binary not found after extraction. Expected at: "), path.as_str())))
            },
            DownloadEvent::Extracted(true) => DownloadAction::SetPermissions(path),
            DownloadEvent::PermissionsSet(Err(e)) => {
                DownloadAction::Done(Err(joined(String::from_str("Failed to set binary permissions: "), e.as_str())))
            },
            DownloadEvent::PermissionsSet(Ok(())) => DownloadAction::Done(Ok(path)),
        }
    }
}

/// The rulesets handed to the server when it starts.
pub enum StartupRulesets {
    /// A single ruleset value: a configuration file, or a name.
    Named(Seq<char>),
    /// A list of rulesets, as the user's settings give it.
    List(Seq<JsonValue>),
}

/// The rulesets the server is started with: the project's configuration file
/// where there is one; otherwise what the user's settings for the server give
/// under `rulesets`, where it is a string that is not blank or an array that
/// is not empty.
pub open spec fn startup_rulesets(config_file: Option<String>, user_settings: Option<JsonValue>) -> Option<StartupRulesets> {
    match config_file {
        Some(c) => Some(StartupRulesets::Named(c@)),
        None => match user_settings {
            Some(s) => match field(s, "rulesets"@) {
                Some(JsonValue::String(r)) => if is_blank(r@) { None } else { Some(StartupRulesets::Named(r@)) },
                Some(JsonValue::Array(items)) => if items@.len() == 0 { None } else { Some(StartupRulesets::List(items@)) },
                _ => None,
            },
            None => None,
        },
    }
}

/// `v` is the options object `{"rulesets": ...}` that carries `rs`: the
/// ruleset value as a string, or the list as an array.
pub open spec fn is_rulesets_options(v: JsonValue, rs: StartupRulesets) -> bool {
    v matches JsonValue::Object(entries) && entries@.len() == 1 && entries@[0].0@ == "rulesets"@
        && match rs {
            StartupRulesets::Named(r) => string_of(entries@[0].1) == Some(r),
            StartupRulesets::List(items) => array_of(entries@[0].1) == Some(items),
        }
}

/// `r` is what starting the server `id` is answered with: nothing for a
/// server other than this extension's; an error where the `mago` tool is not
/// found; otherwise the options carrying the rulesets to use, or nothing
/// where there are none.
pub open spec fn initialization_options_given(
    id: Seq<char>,
    mago_found: bool,
    config_file: Option<String>,
    user_settings: Option<JsonValue>,
    r: Result<Option<JsonValue>, String>,
) -> bool {
    &&& id != server_id() ==> r == Ok::<Option<JsonValue>, String>(None)
    &&& id == server_id() && !mago_found ==> (r matches Err(m) && m@ == "mago not found."@)
    &&& id == server_id() && mago_found ==> match startup_rulesets(config_file, user_settings) {
        Some(rs) => r matches Ok(Some(v)) && is_rulesets_options(v, rs),
        None => r == Ok::<Option<JsonValue>, String>(None),
    }
}

/// The project's configuration file is always handed to the server: once
/// `mago` is found, the options are `{"rulesets": c}` for the configuration
/// file `c`, whatever the user's settings hold, and also where there are
/// none.
pub proof fn law_config_file_is_always_passed(
    c: String,
    user_settings: Option<JsonValue>,
    r: Result<Option<JsonValue>, String>,
)
    requires
        initialization_options_given(server_id(), true, Some(c), user_settings, r),
    ensures
        r matches Ok(Some(JsonValue::Object(entries))) && {
            &&& entries@.len() == 1
            &&& entries@[0].0@ == "rulesets"@
            &&& entries@[0].1 matches JsonValue::String(s) && s@ == c@
        },
{
}

/// Without a configuration file, a string under `rulesets` in the user's
/// settings that is not blank is handed to the server as it is.
pub proof fn law_user_ruleset_string_is_passed(
    settings: JsonValue,
    ruleset: String,
    r: Result<Option<JsonValue>, String>,
)
    requires
        field(settings, "rulesets"@) == Some(JsonValue::String(ruleset)),
        !is_blank(ruleset@),
        initialization_options_given(server_id(), true, None, Some(settings), r),
    ensures
        r matches Ok(Some(JsonValue::Object(entries))) && {
            &&& entries@.len() == 1
            &&& entries@[0].0@ == "rulesets"@
            &&& entries@[0].1 matches JsonValue::String(s) && s@ == ruleset@
        },
{
}

/// Only this extension's server gets options, and only once `mago` is found:
/// any other server gets nothing, and a missing `mago` is an error.
pub proof fn law_options_only_for_this_server(
    id: Seq<char>,
    mago_found: bool,
    config_file: Option<String>,
    user_settings: Option<JsonValue>,
    r: Result<Option<JsonValue>, String>,
)
    requires
        initialization_options_given(id, mago_found, config_file, user_settings, r),
    ensures
        id != "mago"@ ==> r == Ok::<Option<JsonValue>, String>(None),
        id == "mago"@ && !mago_found ==> (r matches Err(m) && m@ == "mago not found."@),
{
}

/// Without a configuration file, a non-empty array under `rulesets` in the
/// user's settings is handed to the server with its items as they are; an
/// empty array, a blank string or any other value hands nothing.
pub proof fn law_user_ruleset_list_is_passed(
    settings: JsonValue,
    r: Result<Option<JsonValue>, String>,
)
    requires
        initialization_options_given(server_id(), true, None, Some(settings), r),
    ensures
        match field(settings, "rulesets"@) {
            Some(JsonValue::Array(items)) => if items@.len() > 0 {
                r matches Ok(Some(JsonValue::Object(entries))) && {
                    &&& entries@.len() == 1
                    &&& entries@[0].0@ == "rulesets"@
                    &&& array_of(entries@[0].1) == Some(items@)
                }
            } else {
                r == Ok::<Option<JsonValue>, String>(None)
            },
            Some(JsonValue::String(s)) => is_blank(s@) ==> r == Ok::<Option<JsonValue>, String>(None),
            _ => r == Ok::<Option<JsonValue>, String>(None),
        },
{
}

impl MagoLspExtension {
    /// An extension that has not started a server yet.
    pub fn new() -> (e: Self)
        ensures
            e.mago_lsp is None,
    {
        MagoLspExtension { mago_lsp: None }
    }

    /// Tells whether `id` names the language server of this extension.
    pub fn is_mago_server(id: &str) -> (b: bool)
        ensures
            b == (id@ == server_id()),
    {
        str_eq(id, MagoLspServer::language_server_id())
    }

    /// Makes ready the server that a command was asked for under `id`: the
    /// server of this extension, created on first use; any other identifier is
    /// refused.
    pub fn language_server_command(&mut self, id: &str) -> (r: Result<(), String>)
        ensures
            id@ == server_id() ==> r is Ok && match old(self).mago_lsp {
                Some(s) => final(self).mago_lsp == Some(s),
                None => final(self).mago_lsp matches Some(s) && s.cached_binary_path is None,
            },
            id@ != server_id() ==> (r matches Err(m) && m@ == "unknown language server: "@ + id@)
                && final(self).mago_lsp == old(self).mago_lsp,
    {
        if Self::is_mago_server(id) {
            if self.mago_lsp.is_none() {
                self.mago_lsp = Some(MagoLspServer::new());
            }
            Ok(())
        } else {
            Err(joined(String::from_str("unknown language server: "), id))
        }
    }

    /// The options the server `id` is started with: nothing for a server
    /// other than this extension's; an error where the `mago` tool is not
    /// found; otherwise `{"rulesets": ...}` with the rulesets to use, or
    /// nothing where there are none. `config_file` is the project's
    /// configuration file, `user_settings` the user's settings for the server.
    pub fn language_server_initialization_options(
        id: &str,
        mago_found: bool,
        config_file: Option<String>,
        user_settings: Option<JsonValue>,
    ) -> (r: Result<Option<JsonValue>, String>)
        ensures
            initialization_options_given(id@, mago_found, config_file, user_settings, r),
    {
        if !Self::is_mago_server(id) {
            return Ok(None);
        }
        if !mago_found {
            return Err(String::from_str("mago not found."));
        }
        let chosen: Option<JsonValue> = match config_file {
            Some(c) => Some(JsonValue::String(c)),
            None => match user_settings {
                Some(settings) => match settings.take("rulesets") {
                    Some(JsonValue::String(r)) => {
                        if is_blank_str(r.as_str()) {
                            None
                        } else {
                            Some(JsonValue::String(r))
                        }
                    },
                    Some(JsonValue::Array(items)) => {
                        if items.len() == 0 {
                            None
                        } else {
                            Some(JsonValue::Array(items))
                        }
                    },
                    _ => None,
                },
                None => None,
            },
        };
        match chosen {
            Some(value) => {
                let mut entries: Vec<(String, JsonValue)> = Vec::new();
                entries.push((String::from_str("rulesets"), value));
                Ok(Some(JsonValue::Object(entries)))
            },
            None => Ok(None),
        }
    }
}

} // verus!
