//! The settings launcher: what Start does.

use vstd::prelude::*;
use vstd::string::StringExecFns;

use crate::config::{start_problem, ConfigError, ConfigModel, SessionConfig, SessionMode};

verus! {

/// The launcher's state: the settings being edited and the last error.
pub struct LauncherApp {
    pub cfg: SessionConfig,
    pub error: String,
}

/// What keeps a clamped configuration from starting.
pub open spec fn start_error(cfg: ConfigModel, bind_valid: bool, connect_valid: bool) -> Option<
    ConfigError,
> {
    if cfg.mode == SessionMode::Host && !bind_valid {
        Some(ConfigError::InvalidBind)
    } else if cfg.mode == SessionMode::Client && !connect_valid {
        Some(ConfigError::InvalidConnect)
    } else {
        None
    }
}

impl LauncherApp {
    pub fn new(cfg: SessionConfig) -> (r: LauncherApp)
        ensures
            r.cfg@ == cfg@,
            r.error@ == Seq::<char>::empty(),
    {
        LauncherApp { cfg, error: String::new() }
    }

    /// Clamps the settings and says whether the session may start once they are saved. If
    /// not, the error says why. Clamping settles contradicting limits, so that only an
    /// address can be wrong.
    pub fn try_start(&mut self, bind_valid: bool, connect_valid: bool) -> (r: bool)
        ensures
            final(self).cfg@ == old(self).cfg@.clamp(),
            r == start_error(old(self).cfg@, bind_valid, connect_valid) is None,
            final(self).error@ == match start_error(old(self).cfg@, bind_valid, connect_valid) {
                Some(e) => e.text(old(self).cfg@),
                None => old(self).error@,
            },
            (final(self).cfg@, final(self).error@, r) == started(
                old(self).cfg@,
                old(self).error@,
                bind_valid,
                connect_valid,
            ),
    {
        self.cfg.clamp();
        match self.cfg.validate_for_start(bind_valid, connect_valid) {
            Ok(_) => true,
            Err(e) => {
                self.error = e.message(&self.cfg);
                false
            },
        }
    }

    /// Takes note that the settings could not be saved.
    pub fn save_failed(&mut self, why: &str)
        ensures
            final(self).cfg == old(self).cfg,
            final(self).error@ == "save config: "@ + why@,
    {
        self.error = "save config: ".to_owned().concat(why);
    }
}

/// Start goes by the address that the mode uses, and by that alone: settings that were moved
/// into range have no other fault. What it finds is what validating those settings finds.
pub proof fn start_needs_the_address_in_use(
    cfg: ConfigModel,
    bind_valid: bool,
    connect_valid: bool,
)
    ensures
        cfg.mode == SessionMode::Host ==> (start_error(cfg, bind_valid, connect_valid) is None
            <==> bind_valid),
        cfg.mode == SessionMode::Client ==> (start_error(cfg, bind_valid, connect_valid) is None
            <==> connect_valid),
        start_error(cfg, bind_valid, connect_valid) == start_problem(
            cfg.clamp(),
            bind_valid,
            connect_valid,
        ),
        start_error(cfg, bind_valid, connect_valid) matches Some(e) ==> e.text(cfg) == e.text(
            cfg.clamp(),
        ),
{
    crate::config::clamp_lands_in_range(cfg);
}

/// What Start makes of the settings and of the error shown, and whether the session starts.
pub open spec fn started(
    cfg: ConfigModel,
    error: Seq<char>,
    bind_valid: bool,
    connect_valid: bool,
) -> (ConfigModel, Seq<char>, bool) {
    match start_error(cfg, bind_valid, connect_valid) {
        Some(e) => (cfg.clamp(), e.text(cfg), false),
        None => (cfg.clamp(), error, true),
    }
}

/// Start moves the settings into range whether or not the session starts. A refusal shows the
/// address that does not parse; a start leaves the error shown as it was.
pub proof fn start_shows_the_bad_address(
    cfg: ConfigModel,
    error: Seq<char>,
    bind_valid: bool,
    connect_valid: bool,
)
    ensures
        ({
            let (n, shown, ok) = started(cfg, error, bind_valid, connect_valid);
            &&& n.in_range() && n == cfg.clamp()
            &&& ok ==> shown == error
            &&& ok <==> (cfg.mode is Host && bind_valid) || (cfg.mode is Client && connect_valid)
            &&& !ok && cfg.mode is Host ==> shown == "invalid bind address: "@ + cfg.bind
            &&& !ok && cfg.mode is Client ==> shown == "invalid connect address: "@ + cfg.connect
        }),
{
    crate::config::clamp_lands_in_range(cfg);
}

} // verus!
