//! The configuration: which repositories are cached, and how.

use vstd::prelude::*;

use crate::cmd::{DEFAULT_PORT, DEFAULT_TTL_SECS};
use crate::text::{cat, cat3, strip_prefix};
use crate::text;

verus! {

/// A repository that is cached.
pub struct RepoConfig {
    pub owner: String,
    pub name: String,
    pub default_branch: Option<String>,
    pub sync_prs: Option<bool>,
    pub sync_notifications: Option<bool>,
    pub sync_events: Option<bool>,
    pub sync_branches: Option<Vec<String>>,
    pub checkout_on_sync: Option<bool>,
    pub poll_interval_seconds: Option<u64>,
    pub fs_alias: Option<String>,
}

/// What the configuration of a repository is.
#[verifier::ext_equal]
pub struct RepoView {
    pub owner: Seq<char>,
    pub name: Seq<char>,
    pub default_branch: Option<Seq<char>>,
    pub sync_prs: Option<bool>,
    pub sync_notifications: Option<bool>,
    pub sync_events: Option<bool>,
    pub sync_branches: Option<Seq<Seq<char>>>,
    pub checkout_on_sync: Option<bool>,
    pub poll_interval_seconds: Option<u64>,
    pub fs_alias: Option<Seq<char>>,
}

impl DeepView for RepoConfig {
    type V = RepoView;

    open spec fn deep_view(&self) -> RepoView {
        RepoView {
            owner: self.owner@,
            name: self.name@,
            default_branch: self.default_branch.deep_view(),
            sync_prs: self.sync_prs,
            sync_notifications: self.sync_notifications,
            sync_events: self.sync_events,
            sync_branches: self.sync_branches.deep_view(),
            checkout_on_sync: self.checkout_on_sync,
            poll_interval_seconds: self.poll_interval_seconds,
            fs_alias: self.fs_alias.deep_view(),
        }
    }
}

/// A user or an organisation all of whose repositories are cached.
pub struct OrgConfig {
    pub owner: String,
    pub sync_prs: Option<bool>,
    pub sync_notifications: Option<bool>,
    pub sync_events: Option<bool>,
    pub sync_branches: Option<Vec<String>>,
    pub checkout_on_sync: Option<bool>,
    pub poll_interval_seconds: Option<u64>,
    pub fs_alias: Option<String>,
    /// The names of repositories that are left out.
    pub exclude: Vec<String>,
}

/// What the configuration of an organisation is.
#[verifier::ext_equal]
pub struct OrgView {
    pub owner: Seq<char>,
    pub sync_prs: Option<bool>,
    pub sync_notifications: Option<bool>,
    pub sync_events: Option<bool>,
    pub sync_branches: Option<Seq<Seq<char>>>,
    pub checkout_on_sync: Option<bool>,
    pub poll_interval_seconds: Option<u64>,
    pub fs_alias: Option<Seq<char>>,
    pub exclude: Seq<Seq<char>>,
}

impl DeepView for OrgConfig {
    type V = OrgView;

    open spec fn deep_view(&self) -> OrgView {
        OrgView {
            owner: self.owner@,
            sync_prs: self.sync_prs,
            sync_notifications: self.sync_notifications,
            sync_events: self.sync_events,
            sync_branches: self.sync_branches.deep_view(),
            checkout_on_sync: self.checkout_on_sync,
            poll_interval_seconds: self.poll_interval_seconds,
            fs_alias: self.fs_alias.deep_view(),
            exclude: self.exclude.deep_view(),
        }
    }
}

/// The configuration with every value settled.
pub struct ResolvedConfig {
    pub db_path: String,
    pub staging_folder: String,
    pub poll_interval_seconds: u64,
    pub log_level: String,
    pub gh_binary: String,
    pub rate_warn_threshold: i64,
    pub rate_stop_threshold: i64,
    pub cmd_port: u16,
    pub heartbeat_ttl_seconds: u64,
    pub sync_notifications: bool,
    pub repos: Vec<RepoConfig>,
    pub orgs: Vec<OrgConfig>,
}

// ---- names -------------------------------------------------------------------------
/// The name of a repository together with that of its owner.
pub open spec fn slug_of(owner: Seq<char>, name: Seq<char>) -> Seq<char> {
    owner + "/"@ + name
}

/// The name of a repository together with that of its owner.
pub fn slug(owner: &str, name: &str) -> (r: String)
    ensures
        r@ == slug_of(owner@, name@),
{
    cat3(owner, "/", name)
}

impl RepoConfig {
    /// The name of the repository together with that of its owner.
    pub fn slug(&self) -> (r: String)
        ensures
            r@ == slug_of(self.owner@, self.name@),
    {
        slug(self.owner.as_str(), self.name.as_str())
    }

    /// The name of the directory in which the owner's repositories are checked out: the
    /// alias if there is one, else the owner's name.
    pub fn fs_owner(&self) -> (r: &str)
        ensures
            r@ == alias_or(self.fs_alias.deep_view(), self.owner@),
    {
        text_or(&self.fs_alias, self.owner.as_str())
    }
}

impl OrgConfig {
    /// The name of the directory in which the owner's repositories are checked out: the
    /// alias if there is one, else the owner's name.
    pub fn fs_owner(&self) -> (r: &str)
        ensures
            r@ == alias_or(self.fs_alias.deep_view(), self.owner@),
    {
        text_or(&self.fs_alias, self.owner.as_str())
    }
}

/// A text if there is one, else another.
pub open spec fn alias_or(alias: Option<Seq<char>>, default: Seq<char>) -> Seq<char> {
    match alias {
        Some(a) => a,
        None => default,
    }
}

/// A text if there is one, else another.
pub fn text_or<'a>(text: &'a Option<String>, default: &'a str) -> (r: &'a str)
    ensures
        r@ == alias_or(text.deep_view(), default@),
{
    match text {
        Some(t) => t.as_str(),
        None => default,
    }
}

/// Whether a switch is set; one that is not given is off.
pub open spec fn is_on(switch: Option<bool>) -> bool {
    switch == Some(true)
}

/// Whether a switch is set; one that is not given is off.
pub fn on(switch: Option<bool>) -> (r: bool)
    ensures
        r == is_on(switch),
{
    match switch {
        Some(b) => b,
        None => false,
    }
}

// ---- where it comes from -----------------------------------------------------------
/// The name of a configuration file in the current directory.
pub const LOCAL_FILE: &'static str = "./ghcache.toml";

/// Where the configuration is read from: the file that is named on the command line, else the
/// one that the environment names, else the one in the current directory, if there is one,
/// else the one of the user.
pub open spec fn chosen_file(
    flag: Option<Seq<char>>,
    env: Option<Seq<char>>,
    local: bool,
    config_dir: Option<Seq<char>>,
) -> Seq<char> {
    match (flag, env, config_dir) {
        (Some(path), _, _) => path,
        (None, Some(path), _) => path,
        (None, None, Some(dir)) if !local => dir + "/ghcache/config.toml"@,
        _ => LOCAL_FILE@,
    }
}

/// Where the configuration is read from.
pub fn config_file(
    flag: Option<&str>,
    env: Option<&str>,
    local: bool,
    config_dir: Option<&str>,
) -> (r: String)
    ensures
        r@ == chosen_file(flag.deep_view(), env.deep_view(), local, config_dir.deep_view()),
{
    if let Some(path) = flag {
        return path.to_owned();
    }
    if let Some(path) = env {
        return path.to_owned();
    }
    match config_dir {
        Some(dir) if !local => cat(dir, "/ghcache/config.toml"),
        _ => LOCAL_FILE.to_owned(),
    }
}

/// A path with the tilde at its start replaced by the home directory.
pub open spec fn expanded(path: Seq<char>, home: Option<Seq<char>>) -> Seq<char> {
    match home {
        Some(h) if text::begins_with(path, "~/"@) => h + path.skip(1),
        _ => path,
    }
}

/// A path with the tilde at its start replaced by the home directory.
pub fn expand_tilde(path: &str, home: Option<&str>) -> (r: String)
    ensures
        r@ == expanded(path@, home.deep_view()),
{
    match home {
        Some(h) => match strip_prefix(path, "~/") {
            Some(rest) => {
                proof {
                    reveal_strlit("~/");
                    reveal_strlit("/");
                    assert(path@[1] == "~/"@[1]);
                    assert(h@ + "/"@ + rest@ =~= h@ + path@.skip(1));
                }
                cat3(h, "/", rest)
            },
            None => path.to_owned(),
        },
        None => path.to_owned(),
    }
}

/// The configuration as a file gives it, where everything that is the same for all
/// repositories may be left out.
pub struct Settings {
    pub db_path: Option<String>,
    pub staging_folder: Option<String>,
    pub poll_interval_seconds: Option<u64>,
    pub log_level: Option<String>,
    pub gh_binary: Option<String>,
    pub rate_warn_threshold: Option<i64>,
    pub rate_stop_threshold: Option<i64>,
    pub cmd_port: Option<u16>,
    pub heartbeat_ttl_seconds: Option<u64>,
    pub sync_notifications: Option<bool>,
    pub repos: Vec<RepoConfig>,
    pub orgs: Vec<OrgConfig>,
}

/// A value if there is one, else another.
pub open spec fn value_or<T>(value: Option<T>, default: T) -> T {
    match value {
        Some(v) => v,
        None => default,
    }
}

/// Whether a configuration is that of the settings, with every value settled.
pub open spec fn is_settled(settings: Settings, home: Option<Seq<char>>, r: ResolvedConfig) -> bool {
    &&& r.db_path@ == expanded(
        alias_or(settings.db_path.deep_view(), "~/.local/share/ghcache/gh.db"@),
        home,
    )
    &&& r.staging_folder@ == expanded(
        alias_or(settings.staging_folder.deep_view(), "~/.local/share/ghcache/repos"@),
        home,
    )
    &&& r.poll_interval_seconds == value_or(settings.poll_interval_seconds, 60)
    &&& r.log_level@ == alias_or(settings.log_level.deep_view(), "info"@)
    &&& r.gh_binary@ == alias_or(settings.gh_binary.deep_view(), "gh"@)
    &&& r.rate_warn_threshold == value_or(settings.rate_warn_threshold, 500)
    &&& r.rate_stop_threshold == value_or(settings.rate_stop_threshold, 50)
    &&& r.cmd_port == value_or(settings.cmd_port, 7748)
    &&& r.heartbeat_ttl_seconds == value_or(settings.heartbeat_ttl_seconds, 30)
    &&& r.sync_notifications == is_on(settings.sync_notifications)
    &&& r.repos == settings.repos
    &&& r.orgs == settings.orgs
}

/// Settles every value: what a file leaves out has a value of its own, and a tilde stands for
/// the home directory.
pub fn resolve(settings: Settings, home: Option<&str>) -> (r: ResolvedConfig)
    ensures
        is_settled(settings, home.deep_view(), r),
        r.db_path@ == expanded(
            alias_or(settings.db_path.deep_view(), "~/.local/share/ghcache/gh.db"@),
            home.deep_view(),
        ),
        r.staging_folder@ == expanded(
            alias_or(settings.staging_folder.deep_view(), "~/.local/share/ghcache/repos"@),
            home.deep_view(),
        ),
        r.poll_interval_seconds == value_or(settings.poll_interval_seconds, 60),
        r.log_level@ == alias_or(settings.log_level.deep_view(), "info"@),
        r.gh_binary@ == alias_or(settings.gh_binary.deep_view(), "gh"@),
        r.rate_warn_threshold == value_or(settings.rate_warn_threshold, 500),
        r.rate_stop_threshold == value_or(settings.rate_stop_threshold, 50),
        r.cmd_port == value_or(settings.cmd_port, 7748),
        r.heartbeat_ttl_seconds == value_or(settings.heartbeat_ttl_seconds, 30),
        r.sync_notifications == is_on(settings.sync_notifications),
        r.repos == settings.repos,
        r.orgs == settings.orgs,
{
    let db_path: String = expand_tilde(
        text_or(&settings.db_path, "~/.local/share/ghcache/gh.db"),
        home,
    );
    let staging_folder: String = expand_tilde(
        text_or(&settings.staging_folder, "~/.local/share/ghcache/repos"),
        home,
    );
    let log_level: String = text_or(&settings.log_level, "info").to_owned();
    let gh_binary: String = text_or(&settings.gh_binary, "gh").to_owned();
    ResolvedConfig {
        db_path,
        staging_folder,
        poll_interval_seconds: settings.poll_interval_seconds.unwrap_or(60),
        log_level,
        gh_binary,
        rate_warn_threshold: settings.rate_warn_threshold.unwrap_or(500),
        rate_stop_threshold: settings.rate_stop_threshold.unwrap_or(50),
        cmd_port: settings.cmd_port.unwrap_or(DEFAULT_PORT),
        heartbeat_ttl_seconds: settings.heartbeat_ttl_seconds.unwrap_or(DEFAULT_TTL_SECS),
        sync_notifications: on(settings.sync_notifications),
        repos: settings.repos,
        orgs: settings.orgs,
    }
}

} // verus!
