//! Checks of the environment: the installed git's version, and which
//! installer of a newer release fits the platform.
use crate::text::trim_str;
use vstd::prelude::*;

verus! {

broadcast use vstd::string::group_string_axioms;

/// The git versions the application works with.
pub const GIT_VERSION: &'static str = ">= 2.22.0";

/// The pattern that finds a version in the output of `git --version`.
pub const VERSION_PATTERN: &'static str = "(?P<version>(\\d+\\.\\d+\\.\\d+))";

/// What the regex `pattern` captures in its group `group` at its first match
/// in `text`, none when it does not match.
pub uninterp spec fn regex_capture_of(pattern: Seq<char>, group: Seq<char>, text: Seq<char>) -> Option<
    Seq<char>,
>;

/// `regex::Regex::new(pattern)`, then `captures(text)` and the group
/// `group` of the captures.  The result is named `regex_capture_of` of the
/// three arguments; the regex semantics are not restated.  Only the version
/// pattern with its `version` group, which compiles and always takes part in
/// a match, is admitted.
#[verifier::external_body]
fn regex_capture(pattern: &str, group: &str, text: &str) -> (r: Option<String>)
    requires
        pattern@ == VERSION_PATTERN@,
        group@ == "version"@,
    ensures
        match r {
            Some(v) => regex_capture_of(pattern@, group@, text@) == Some(v@),
            None => regex_capture_of(pattern@, group@, text@) is None,
        },
{
    regex::Regex::new(pattern).unwrap().captures(text).map(|c| c[group].to_string())
}

/// Whether `version` parses as a semantic version that satisfies the
/// requirement `req`; none when it does not parse.
pub uninterp spec fn semver_req_matches(req: Seq<char>, version: Seq<char>) -> Option<bool>;

/// `semver::VersionReq::parse(req)`, `semver::Version::parse(version)` and
/// `VersionReq::matches`.  The result is named `semver_req_matches` of the
/// two arguments.  Only the requirement `GIT_VERSION`, which parses, is
/// admitted.
#[verifier::external_body]
fn version_req_matches(req: &str, version: &str) -> (r: Option<bool>)
    requires
        req@ == GIT_VERSION@,
    ensures
        r == semver_req_matches(req@, version@),
{
    let req = semver::VersionReq::parse(req).unwrap();
    match semver::Version::parse(version) {
        Ok(v) => Some(req.matches(&v)),
        Err(_) => None,
    }
}

/// The installed git, as `git --version` describes it.
pub struct GitVersionInfo {
    pub version_desc: String,
    pub version: Option<String>,
}

/// The message when no version is found in the output of `git --version`.
pub open spec fn no_version_message() -> Seq<char> {
    "failed to get git version\n"@
}

/// The message when the installed git is too old.
pub open spec fn old_version_message(version: Seq<char>) -> Seq<char> {
    "git version "@ + GIT_VERSION@ + " is required, current version is "@ + version + "\n"@
}

/// What the version check answers, given what was found in the output
/// `version_desc` of `git --version` (`captured`) and, for a found version,
/// whether it meets `GIT_VERSION` (`req_match`, none when it is no semantic
/// version).
pub open spec fn git_version_outcome(
    version_desc: Seq<char>,
    captured: Option<Seq<char>>,
    req_match: Option<bool>,
    r: Result<GitVersionInfo, String>,
) -> bool {
    match captured {
        None => r matches Err(m) && m@ == no_version_message(),
        Some(v) => match req_match {
            Some(true) => r matches Ok(info) && info.version_desc@ == crate::text::trim(
                version_desc,
            ) && info.version is Some && info.version->Some_0@ == v,
            Some(false) => r matches Err(m) && m@ == old_version_message(v),
            None => r matches Err(m) && m@ == no_version_message(),
        },
    }
}

/// The view of an optional text.
pub open spec fn opt_view(o: Option<String>) -> Option<Seq<char>> {
    match o {
        Some(s) => Some(s@),
        None => None,
    }
}

/// Decides the version check from the version found in the output of
/// `git --version` and whether that version meets `GIT_VERSION`.
pub fn git_version_result(version_desc: &str, captured: Option<String>, req_match: Option<bool>) -> (r:
    Result<GitVersionInfo, String>)
    ensures
        git_version_outcome(version_desc@, opt_view(captured), req_match, r),
{
    match captured {
        None => Err(String::from_str("failed to get git version\n")),
        Some(v) => match req_match {
            Some(true) => Ok(
                GitVersionInfo { version_desc: trim_str(version_desc), version: Some(v) },
            ),
            Some(false) => {
                let mut m = String::from_str("git version ");
                m.append(GIT_VERSION);
                m.append(" is required, current version is ");
                m.append(v.as_str());
                m.append("\n");
                Err(m)
            },
            None => Err(String::from_str("failed to get git version\n")),
        },
    }
}

/// Checks the output of `git --version`: the version found in it must meet
/// `GIT_VERSION`.  A version that is found but is no semantic version counts
/// as no version.
pub fn check_git_version(version_desc: &str) -> (r: Result<GitVersionInfo, String>)
    ensures
        git_version_outcome(
            version_desc@,
            regex_capture_of(VERSION_PATTERN@, "version"@, version_desc@),
            match regex_capture_of(VERSION_PATTERN@, "version"@, version_desc@) {
                Some(v) => semver_req_matches(GIT_VERSION@, v),
                None => None,
            },
            r,
        ),
{
    let captured = regex_capture(VERSION_PATTERN, "version", version_desc);
    let req_match = match &captured {
        Some(v) => version_req_matches(GIT_VERSION, v.as_str()),
        None => None,
    };
    git_version_result(version_desc, captured, req_match)
}

/// The platforms that have an installer.
#[derive(PartialEq, Eq, Structural, Debug, Clone, Copy)]
pub enum Platform {
    MacOs,
    Windows,
    Linux,
    Other,
}

/// The installer file of release `tag` for a platform; empty where there is
/// none.
pub open spec fn installer_asset(tag: Seq<char>, platform: Platform) -> Seq<char> {
    match platform {
        Platform::MacOs => "mgit-"@ + tag + "-universal.dmg"@,
        Platform::Windows => "mgit-"@ + tag + "-setup.exe"@,
        Platform::Linux => "mgit_"@ + tag + "_amd64.deb"@,
        Platform::Other => Seq::empty(),
    }
}

/// The download address of a release's installer.
pub open spec fn installer_url(tag: Seq<char>, asset: Seq<char>) -> Seq<char> {
    "https://github.com/yhx0516/mgit/releases/download/"@ + tag + "/"@ + asset
}

/// The installer of release `tag` for a platform, and where to download it.
pub fn gui_installer_url(tag: &str, platform: Platform) -> (r: (String, String))
    ensures
        r.0@ == installer_asset(tag@, platform),
        r.1@ == installer_url(tag@, installer_asset(tag@, platform)),
{
    let asset = match platform {
        Platform::MacOs => {
            let mut s = String::from_str("mgit-");
            s.append(tag);
            s.append("-universal.dmg");
            s
        },
        Platform::Windows => {
            let mut s = String::from_str("mgit-");
            s.append(tag);
            s.append("-setup.exe");
            s
        },
        Platform::Linux => {
            let mut s = String::from_str("mgit_");
            s.append(tag);
            s.append("_amd64.deb");
            s
        },
        Platform::Other => String::new(),
    };
    let mut url = String::from_str("https://github.com/yhx0516/mgit/releases/download/");
    url.append(tag);
    url.append("/");
    url.append(asset.as_str());
    (asset, url)
}

/// Whether `latest` and `current` parse as semantic versions with `latest`
/// the greater one.
pub uninterp spec fn semver_newer(latest: Seq<char>, current: Seq<char>) -> bool;

/// `semver::Version::parse` of both texts and `>` between the versions.  The
/// result is named `semver_newer` of the two arguments; false when either
/// does not parse.
#[verifier::external_body]
fn version_newer(latest: &str, current: &str) -> (r: bool)
    ensures
        r == semver_newer(latest@, current@),
{
    match (semver::Version::parse(latest), semver::Version::parse(current)) {
        (Ok(l), Ok(c)) => l > c,
        _ => false,
    }
}

/// What the update check offers: the installer of release `latest_tag` when
/// it is newer than the running version.
pub fn update_offer(latest_tag: &str, current_version: &str, platform: Platform) -> (r: Option<
    (String, String),
>)
    ensures
        semver_newer(latest_tag@, current_version@) ==> (r matches Some(x) && x.0@
            == installer_asset(latest_tag@, platform) && x.1@ == installer_url(
            latest_tag@,
            installer_asset(latest_tag@, platform),
        )),
        !semver_newer(latest_tag@, current_version@) ==> r is None,
{
    if version_newer(latest_tag, current_version) {
        Some(gui_installer_url(latest_tag, platform))
    } else {
        None
    }
}

/// Where the update window stands.
pub enum UpgradeState {
    Checking,
    UpToDate { current: String },
    UpdateAvailable { current: String, latest: String, asset_url: String, asset_name: String },
    Downloading { file_name: String },
    ReadyToInstall { path: String },
    Error { message: String },
}

/// The window after the update check found release `latest`: a newer
/// installer on offer (`asset_name`, `asset_url`), or the running version
/// `current` is up to date.
pub fn checked_state(current: &str, latest: String, offer: Option<(String, String)>) -> (r:
    UpgradeState)
    ensures
        match offer {
            Some((name, url)) => r matches UpgradeState::UpdateAvailable {
                current: c,
                latest: l,
                asset_url: u,
                asset_name: n,
            } && c@ == current@ && l@ == latest@ && u@ == url@ && n@ == name@,
            None => r matches UpgradeState::UpToDate { current: c } && c@ == current@,
        },
{
    match offer {
        Some((name, url)) => UpgradeState::UpdateAvailable {
            current: String::from_str(current),
            latest,
            asset_url: url,
            asset_name: name,
        },
        None => UpgradeState::UpToDate { current: String::from_str(current) },
    }
}

/// The title of the update window: the release on offer, else a plain one.
pub fn upgrade_window_name(state: &UpgradeState) -> (r: String)
    ensures
        match state {
            UpgradeState::UpdateAvailable { latest, .. } => r@ == "mgit-gui v"@ + latest@
                + " available"@,
            _ => r@ == "Update mgit-gui"@,
        },
{
    match state {
        UpgradeState::UpdateAvailable { latest, .. } => {
            let mut r = String::from_str("mgit-gui v");
            r.append(latest.as_str());
            r.append(" available");
            r
        },
        _ => String::from_str("Update mgit-gui"),
    }
}

} // verus!
