//! Settings of a run: which fields to show, the challenge window, the logo and
//! the hook scripts. Reading and writing the settings file is left to callers.
use vstd::prelude::*;
use vstd::string::StringExecFns;

verus! {

/// All settings.
#[derive(Clone)]
pub struct Config {
    pub display: DisplayConfig,
    pub challenge: ChallengeConfig,
    pub logo: LogoConfig,
    pub scripts: ScriptsConfig,
}

/// Display mode ("normal" or "challenge"), the field toggles, and an optional
/// install date written `YYYY-MM-DD`.
#[derive(Clone)]
pub struct DisplayConfig {
    pub mode: String,
    pub distro: bool,
    pub age: bool,
    pub kernel: bool,
    pub packages: bool,
    pub shell: bool,
    pub term: bool,
    pub wm: bool,
    pub cpu: bool,
    pub gpu: bool,
    pub theme: bool,
    pub nix: bool,
    pub custom_install_date: Option<String>,
}

/// Length of the challenge window.
#[derive(Clone, Copy)]
pub struct ChallengeConfig {
    pub years: i64,
    pub months: i64,
}

/// A custom logo image and its size in terminal cells.
#[derive(Clone)]
pub struct LogoConfig {
    pub custom_path: String,
    pub width: Option<u32>,
    pub height: Option<u32>,
}

/// Shell commands run before and after the display.
#[derive(Clone)]
pub struct ScriptsConfig {
    pub pre_fetch: String,
    pub post_fetch: String,
}

pub fn default_mode() -> (r: String)
    ensures
        r@ == "normal"@,
{
    String::from_str("normal")
}

pub fn default_true() -> (r: bool)
    ensures
        r,
{
    true
}

pub fn default_years() -> (r: i64)
    ensures
        r == 2,
{
    2
}

pub fn default_months() -> (r: i64)
    ensures
        r == 0,
{
    0
}

impl DisplayConfig {
    /// Every field shown, normal mode, no custom install date.
    pub open spec fn is_default(&self) -> bool {
        &&& self.mode@ == "normal"@
        &&& self.distro && self.age && self.kernel && self.packages && self.shell
        &&& self.term && self.wm && self.cpu && self.gpu && self.theme && self.nix
        &&& self.custom_install_date is None
    }

    /// The run is a challenge run when asked on the command line or when the
    /// mode is "challenge".
    pub fn in_challenge_mode(&self, cli_challenge: bool) -> (r: bool)
        ensures
            r == (cli_challenge || self.mode@ == "challenge"@),
    {
        cli_challenge || self.mode == String::from_str("challenge")
    }
}

impl Default for DisplayConfig {
    fn default() -> (r: Self)
        ensures
            r.is_default(),
    {
        DisplayConfig {
            mode: default_mode(),
            distro: true,
            age: true,
            kernel: true,
            packages: true,
            shell: true,
            term: true,
            wm: true,
            cpu: true,
            gpu: true,
            theme: true,
            nix: true,
            custom_install_date: None,
        }
    }
}

impl Default for ChallengeConfig {
    fn default() -> (r: Self)
        ensures
            r.years == 2,
            r.months == 0,
    {
        ChallengeConfig { years: default_years(), months: default_months() }
    }
}

impl Default for LogoConfig {
    fn default() -> (r: Self)
        ensures
            r.custom_path@.len() == 0,
            r.width is None,
            r.height is None,
    {
        LogoConfig { custom_path: String::new(), width: None, height: None }
    }
}

impl Default for ScriptsConfig {
    fn default() -> (r: Self)
        ensures
            r.pre_fetch@.len() == 0,
            r.post_fetch@.len() == 0,
    {
        ScriptsConfig { pre_fetch: String::new(), post_fetch: String::new() }
    }
}

impl Default for Config {
    fn default() -> (r: Self)
        ensures
            r.display.is_default(),
            r.challenge.years == 2 && r.challenge.months == 0,
            r.logo.custom_path@.len() == 0 && r.logo.width is None && r.logo.height is None,
            r.scripts.pre_fetch@.len() == 0 && r.scripts.post_fetch@.len() == 0,
    {
        Config {
            display: DisplayConfig::default(),
            challenge: ChallengeConfig::default(),
            logo: LogoConfig::default(),
            scripts: ScriptsConfig::default(),
        }
    }
}

} // verus!
