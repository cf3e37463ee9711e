//! Session settings shared by CLI, GUI launcher, host, and client.

use vstd::prelude::*;
use vstd::string::StringExecFns;

use crate::bytes::same_str;
use crate::caps::{Caps, CapsModel, ChromaPref, CodecCap, Platform};
use crate::congestion::{clamp_u32, clamped, mbps_to_bps, to_bps};

verus! {

#[derive(Debug, Clone, Copy, PartialEq, Eq, Structural)]
pub enum SessionMode {
    Host,
    Client,
}

impl Default for SessionMode {
    fn default() -> (r: SessionMode)
        ensures
            r == SessionMode::Host,
    {
        SessionMode::Host
    }
}

impl SessionMode {
    pub fn label(self) -> (r: &'static str)
        ensures
            r@ == match self {
                SessionMode::Host => "Host"@,
                SessionMode::Client => "Client"@,
            },
    {
        match self {
            SessionMode::Host => "Host",
            SessionMode::Client => "Client",
        }
    }
}

#[derive(Debug)]
pub struct SessionConfig {
    pub mode: SessionMode,
    /// Host listen address (e.g. `0.0.0.0:44700`).
    pub bind: String,
    /// Client peer address (e.g. `192.168.1.10:44700`).
    pub connect: String,
    pub pin: String,
    /// Encode / present cadence (30..=120).
    pub target_fps: u32,
    pub target_mbps: u32,
    pub min_mbps: u32,
    pub max_mbps: u32,
    pub chroma: ChromaPref,
}

/// What a `SessionConfig` says.
#[verifier::ext_equal]
pub struct ConfigModel {
    pub mode: SessionMode,
    pub bind: Seq<char>,
    pub connect: Seq<char>,
    pub pin: Seq<char>,
    pub target_fps: u32,
    pub target_mbps: u32,
    pub min_mbps: u32,
    pub max_mbps: u32,
    pub chroma: ChromaPref,
}

impl View for SessionConfig {
    type V = ConfigModel;

    open spec fn view(&self) -> ConfigModel {
        ConfigModel {
            mode: self.mode,
            bind: self.bind@,
            connect: self.connect@,
            pin: self.pin@,
            target_fps: self.target_fps,
            target_mbps: self.target_mbps,
            min_mbps: self.min_mbps,
            max_mbps: self.max_mbps,
            chroma: self.chroma,
        }
    }
}

impl ConfigModel {
    pub open spec fn initial() -> ConfigModel {
        ConfigModel {
            mode: SessionMode::Host,
            bind: "0.0.0.0:44700"@,
            connect: "127.0.0.1:44700"@,
            pin: "0000"@,
            target_fps: 60,
            target_mbps: 50,
            min_mbps: 40,
            max_mbps: 100,
            chroma: ChromaPref::Auto,
        }
    }

    /// The lower limit, the target and the upper limit of the bitrate, in bits a second.
    pub open spec fn rates(self) -> (u32, u32, u32) {
        (mbps_to_bps(self.min_mbps), mbps_to_bps(self.target_mbps), mbps_to_bps(self.max_mbps))
    }

    /// The settings of a host that listens on `bind`.
    pub open spec fn hosting(bind: Seq<char>, pin: Seq<char>) -> ConfigModel {
        ConfigModel { mode: SessionMode::Host, bind, pin, ..ConfigModel::initial() }
    }

    /// The settings of a client that connects to `connect`.
    pub open spec fn joining(connect: Seq<char>, pin: Seq<char>) -> ConfigModel {
        ConfigModel { mode: SessionMode::Client, connect, pin, ..ConfigModel::initial() }
    }

    /// Whether every setting is in range.
    pub open spec fn in_range(self) -> bool {
        &&& 30 <= self.target_fps <= 120
        &&& 1 <= self.min_mbps <= self.target_mbps <= self.max_mbps
        &&& self.pin.len() > 0
    }

    /// The settings, each moved into range. Of two bitrate limits that contradict each
    /// other the lower one stands.
    pub open spec fn clamp(self) -> ConfigModel {
        let min = if self.min_mbps >= 1 {
            self.min_mbps
        } else {
            1
        };
        let max = if self.max_mbps >= min {
            self.max_mbps
        } else {
            min
        };
        ConfigModel {
            target_fps: clamped(self.target_fps, 30, 120),
            min_mbps: min,
            max_mbps: max,
            target_mbps: clamped(self.target_mbps, min, max),
            pin: if self.pin.len() == 0 {
                "0000"@
            } else {
                self.pin
            },
            ..self
        }
    }
}

/// Why a session cannot start.
#[derive(Debug, Clone, Copy, PartialEq, Eq, Structural)]
pub enum ConfigError {
    InvalidBind,
    InvalidConnect,
    MinAboveMax,
}

impl ConfigError {
    pub open spec fn text(self, cfg: ConfigModel) -> Seq<char> {
        match self {
            ConfigError::InvalidBind => "invalid bind address: "@ + cfg.bind,
            ConfigError::InvalidConnect => "invalid connect address: "@ + cfg.connect,
            ConfigError::MinAboveMax => "min Mbps must be ≤ max Mbps"@,
        }
    }

    pub fn message(&self, cfg: &SessionConfig) -> (r: String)
        ensures
            r@ == self.text(cfg@),
    {
        match self {
            ConfigError::InvalidBind => "invalid bind address: ".to_owned().concat(
                cfg.bind.as_str(),
            ),
            ConfigError::InvalidConnect => "invalid connect address: ".to_owned().concat(
                cfg.connect.as_str(),
            ),
            ConfigError::MinAboveMax => "min Mbps must be ≤ max Mbps".to_owned(),
        }
    }
}

impl Default for SessionConfig {
    fn default() -> (r: SessionConfig)
        ensures
            r@ == ConfigModel::initial(),
    {
        SessionConfig {
            mode: SessionMode::Host,
            bind: "0.0.0.0:44700".to_owned(),
            connect: "127.0.0.1:44700".to_owned(),
            pin: "0000".to_owned(),
            target_fps: 60,
            target_mbps: 50,
            min_mbps: 40,
            max_mbps: 100,
            chroma: ChromaPref::Auto,
        }
    }
}

impl Clone for SessionConfig {
    fn clone(&self) -> (r: SessionConfig)
        ensures
            r@ == self@,
    {
        SessionConfig {
            mode: self.mode,
            bind: self.bind.clone(),
            connect: self.connect.clone(),
            pin: self.pin.clone(),
            target_fps: self.target_fps,
            target_mbps: self.target_mbps,
            min_mbps: self.min_mbps,
            max_mbps: self.max_mbps,
            chroma: self.chroma,
        }
    }
}

impl SessionConfig {
    /// The settings a stored configuration stands for: clamped, or the defaults where there
    /// is none that can be read.
    pub fn from_stored(stored: Option<SessionConfig>) -> (r: SessionConfig)
        ensures
            r@ == match stored {
                Some(cfg) => cfg@.clamp(),
                None => ConfigModel::initial(),
            },
            r@.in_range(),
    {
        match stored {
            Some(cfg) => {
                proof {
                    clamp_lands_in_range(cfg@);
                }
                let mut cfg = cfg;
                cfg.clamp();
                cfg
            },
            None => {
                proof {
                    settings_start_in_range();
                }
                SessionConfig::default()
            },
        }
    }

    /// Defaults for a host that listens on `bind`.
    pub fn for_host(bind: String, pin: String) -> (r: SessionConfig)
        ensures
            r@ == (ConfigModel {
                mode: SessionMode::Host,
                bind: bind@,
                pin: pin@,
                ..ConfigModel::initial()
            }),
            r@ == ConfigModel::hosting(bind@, pin@),
    {
        let mut cfg = SessionConfig::default();
        cfg.bind = bind;
        cfg.pin = pin;
        cfg
    }

    /// Defaults for a client that connects to `connect`.
    pub fn for_client(connect: String, pin: String) -> (r: SessionConfig)
        ensures
            r@ == (ConfigModel {
                mode: SessionMode::Client,
                connect: connect@,
                pin: pin@,
                ..ConfigModel::initial()
            }),
            r@ == ConfigModel::joining(connect@, pin@),
    {
        let mut cfg = SessionConfig::default();
        cfg.mode = SessionMode::Client;
        cfg.connect = connect;
        cfg.pin = pin;
        cfg
    }

    /// Moves every setting into range.
    pub fn clamp(&mut self)
        ensures
            final(self)@ == old(self)@.clamp(),
    {
        self.target_fps = clamp_u32(self.target_fps, 30, 120);
        if self.min_mbps < 1 {
            self.min_mbps = 1;
        }
        if self.max_mbps < self.min_mbps {
            self.max_mbps = self.min_mbps;
        }
        self.target_mbps = clamp_u32(self.target_mbps, self.min_mbps, self.max_mbps);
        if same_str(self.pin.as_str(), "") {
            self.pin = "0000".to_owned();
        }
        proof {
            reveal_strlit("");
            assert(""@ =~= Seq::<char>::empty());
            assert(old(self)@.pin.len() == 0 ==> old(self)@.pin =~= ""@);
        }
    }

    pub fn target_bps(&self) -> (r: u32)
        ensures
            r == mbps_to_bps(self@.target_mbps),
            r == self@.rates().1,
    {
        to_bps(self.target_mbps)
    }

    pub fn min_bps(&self) -> (r: u32)
        ensures
            r == mbps_to_bps(self@.min_mbps),
            r == self@.rates().0,
    {
        to_bps(self.min_mbps)
    }

    pub fn max_bps(&self) -> (r: u32)
        ensures
            r == mbps_to_bps(self@.max_mbps),
            r == self@.rates().2,
    {
        to_bps(self.max_mbps)
    }

    /// What keeps a session from starting, if anything does. `bind_valid` and
    /// `connect_valid` say whether the two addresses parse; only the one that the mode uses
    /// matters.
    pub open spec fn start_error(self, bind_valid: bool, connect_valid: bool) -> Option<ConfigError> {
        if self.mode == SessionMode::Host && !bind_valid {
            Some(ConfigError::InvalidBind)
        } else if self.mode == SessionMode::Client && !connect_valid {
            Some(ConfigError::InvalidConnect)
        } else if self.min_mbps > self.max_mbps {
            Some(ConfigError::MinAboveMax)
        } else {
            None
        }
    }

    /// Whether a session can start. `bind_valid` and `connect_valid` say whether the two
    /// addresses parse; only the one that the mode uses matters.
    pub fn validate_for_start(&self, bind_valid: bool, connect_valid: bool) -> (r: Result<
        (),
        ConfigError,
    >)
        ensures
            r == match self.start_error(bind_valid, connect_valid) {
                Some(e) => Err::<(), ConfigError>(e),
                None => Ok::<(), ConfigError>(()),
            },
            r.is_ok() <==> start_problem(self@, bind_valid, connect_valid) is None,
            r matches Err(e) ==> start_problem(self@, bind_valid, connect_valid) == Some(e),
    {
        match self.mode {
            SessionMode::Host => if !bind_valid {
                return Err(ConfigError::InvalidBind);
            },
            SessionMode::Client => if !connect_valid {
                return Err(ConfigError::InvalidConnect);
            },
        }
        if self.min_mbps > self.max_mbps {
            return Err(ConfigError::MinAboveMax);
        }
        Ok(())
    }
}

/// A `ConfigError` with word of where it came up.
#[derive(Debug, Clone, Copy, PartialEq, Eq, Structural)]
pub struct SessionConfigError {
    pub cause: ConfigError,
}

impl SessionConfigError {
    /// What it is about; `cause` says what is wrong.
    pub fn message(&self) -> (r: &'static str)
        ensures
            r@ == "session config"@,
    {
        "session config"
    }
}

/// Whether a session can start with these settings, just as `validate_for_start` has it:
/// the address in use must parse, and the bitrate limits may not contradict each other.
pub fn validate_config(cfg: &SessionConfig, bind_valid: bool, connect_valid: bool) -> (r: Result<
    (),
    SessionConfigError,
>)
    ensures
        match r {
            Ok(_) => cfg.start_error(bind_valid, connect_valid) is None,
            Err(e) => cfg.start_error(bind_valid, connect_valid) == Some(e.cause),
        },
        r.is_ok() <==> start_problem(cfg@, bind_valid, connect_valid) is None,
        r matches Err(e) ==> start_problem(cfg@, bind_valid, connect_valid) == Some(e.cause),
{
    match cfg.validate_for_start(bind_valid, connect_valid) {
        Ok(_) => Ok(()),
        Err(cause) => Err(SessionConfigError { cause }),
    }
}

/// Where the settings are stored: the directories and the file, to be joined in order.
pub open spec fn config_parts(
    platform: Platform,
    home: Option<Seq<char>>,
    appdata: Option<Seq<char>>,
) -> Seq<Seq<char>> {
    match (platform, home, appdata) {
        (Platform::Macos, Some(h), _) => seq![
            h,
            "Library/Application Support/lansec/config.json"@,
        ],
        (Platform::Windows, _, Some(a)) => seq![a, "lansec"@, "config.json"@],
        (Platform::Unknown, Some(h), _) => seq![h, ".config/lansec/config.json"@],
        _ => seq!["lansec-config.json"@],
    }
}

/// The views of a list of strings.
pub open spec fn string_views(v: Seq<String>) -> Seq<Seq<char>> {
    v.map_values(|s: String| s@)
}

/// The view of an optional string.
pub open spec fn string_view(s: Option<String>) -> Option<Seq<char>> {
    match s {
        Some(s) => Some(s@),
        None => None,
    }
}

/// Where the settings are stored: below the home or application data directory, in the
/// working directory where that is not known.
pub fn config_path(platform: Platform, home: Option<String>, appdata: Option<String>) -> (r: Vec<
    String,
>)
    ensures
        string_views(r@) == config_parts(platform, string_view(home), string_view(appdata)),
{
    let mut out: Vec<String> = Vec::new();
    match (platform, home, appdata) {
        (Platform::Macos, Some(h), _) => {
            out.push(h);
            out.push("Library/Application Support/lansec/config.json".to_owned());
        },
        (Platform::Windows, _, Some(a)) => {
            out.push(a);
            out.push("lansec".to_owned());
            out.push("config.json".to_owned());
        },
        (Platform::Unknown, Some(h), _) => {
            out.push(h);
            out.push(".config/lansec/config.json".to_owned());
        },
        _ => {
            out.push("lansec-config.json".to_owned());
        },
    }
    assert(string_views(out@) =~= config_parts(platform, string_view(home), string_view(appdata)));
    out
}

/// Clamping leaves every setting in range, and leaves alone what is.
pub proof fn clamp_lands_in_range(cfg: ConfigModel)
    ensures
        cfg.clamp().in_range(),
        cfg.in_range() ==> cfg.clamp() == cfg,
        cfg.clamp().clamp() == cfg.clamp(),
{
    reveal_strlit("0000");
    assert(cfg.in_range() ==> cfg.clamp() =~= cfg);
    assert(cfg.clamp().clamp() =~= cfg.clamp());
}

/// This machine's capabilities.
pub fn local_caps(encode: Vec<CodecCap>, decode: Vec<CodecCap>, platform: Platform) -> (r: Caps)
    ensures
        r@ == (CapsModel {
            encode: encode@,
            decode: decode@,
            audio: true,
            input: true,
            platform,
        }),
        r@ == whole_caps(encode@, decode@, platform),
{
    Caps { encode, decode, audio: true, input: true, platform }
}

/// What a machine offers: its encoders and decoders, sound, and input.
pub open spec fn whole_caps(
    encode: Seq<CodecCap>,
    decode: Seq<CodecCap>,
    platform: Platform,
) -> CapsModel {
    CapsModel { encode, decode, audio: true, input: true, platform }
}

/// A machine offers all its codecs as they are, under its own platform, and always sound and
/// input.
pub proof fn machines_offer_what_they_have(
    encode: Seq<CodecCap>,
    decode: Seq<CodecCap>,
    platform: Platform,
)
    ensures
        ({
            let c = whole_caps(encode, decode, platform);
            &&& c.encode == encode && c.decode == decode && c.platform == platform
            &&& c.audio && c.input
        }),
{
}

/// What keeps a session from starting with such settings, if anything does.
pub open spec fn start_problem(
    cfg: ConfigModel,
    bind_valid: bool,
    connect_valid: bool,
) -> Option<ConfigError> {
    if cfg.mode == SessionMode::Host && !bind_valid {
        Some(ConfigError::InvalidBind)
    } else if cfg.mode == SessionMode::Client && !connect_valid {
        Some(ConfigError::InvalidConnect)
    } else if cfg.min_mbps > cfg.max_mbps {
        Some(ConfigError::MinAboveMax)
    } else {
        None
    }
}

/// A session starts just where the address that its mode uses parses and the bitrate limits
/// agree. A bad address is named before bad limits, and only the one in use.
pub proof fn sessions_start_with_good_settings(
    cfg: ConfigModel,
    bind_valid: bool,
    connect_valid: bool,
)
    ensures
        ({
            let problem = start_problem(cfg, bind_valid, connect_valid);
            let valid = if cfg.mode is Host {
                bind_valid
            } else {
                connect_valid
            };
            &&& problem is None <==> valid && cfg.min_mbps <= cfg.max_mbps
            &&& problem == Some(ConfigError::InvalidBind) <==> cfg.mode is Host && !bind_valid
            &&& problem == Some(ConfigError::InvalidConnect) <==> cfg.mode is Client
                && !connect_valid
            &&& problem == Some(ConfigError::MinAboveMax) <==> valid && cfg.min_mbps
                > cfg.max_mbps
        }),
{
}

/// The settings to start with are in range, and say what a first run does: it hosts on every
/// address of the port, with the bitrate between its limits and no chroma asked for. A
/// host or client made from an address and a code differs in these alone.
pub proof fn settings_start_in_range()
    ensures
        ConfigModel::initial().in_range(),
        ConfigModel::initial().clamp() == ConfigModel::initial(),
        ConfigModel::initial().mode is Host,
        ConfigModel::initial().chroma is Auto,
        ConfigModel::initial().target_fps == 60,
        ConfigModel::initial().min_mbps == 40,
        ConfigModel::initial().target_mbps == 50,
        ConfigModel::initial().max_mbps == 100,
        ConfigModel::initial().bind == "0.0.0.0:44700"@,
        ConfigModel::initial().connect == "127.0.0.1:44700"@,
        ConfigModel::initial().pin == "0000"@,
        forall|a: Seq<char>, p: Seq<char>|
            {
                let c = #[trigger] ConfigModel::hosting(a, p);
                &&& c.bind == a && c.pin == p && c.mode is Host
                &&& c == (ConfigModel { bind: a, pin: p, ..ConfigModel::initial() })
            },
        forall|a: Seq<char>, p: Seq<char>|
            {
                let c = #[trigger] ConfigModel::joining(a, p);
                &&& c.connect == a && c.pin == p && c.mode is Client
                &&& c == (ConfigModel {
                    connect: a,
                    pin: p,
                    mode: SessionMode::Client,
                    ..ConfigModel::initial()
                })
            },
{
    reveal_strlit("0000");
    clamp_lands_in_range(ConfigModel::initial());
}

/// Clamping moves a setting only where it must and no further than the bound that it passes,
/// and never touches the mode, the addresses or the chroma.
pub proof fn clamping_moves_no_further_than_it_must(cfg: ConfigModel)
    ensures
        ({
            let c = cfg.clamp();
            &&& c.mode == cfg.mode && c.bind == cfg.bind && c.connect == cfg.connect && c.chroma
                == cfg.chroma
            &&& 30 <= cfg.target_fps <= 120 ==> c.target_fps == cfg.target_fps
            &&& cfg.target_fps < 30 ==> c.target_fps == 30
            &&& cfg.target_fps > 120 ==> c.target_fps == 120
            &&& cfg.min_mbps > 0 ==> c.min_mbps == cfg.min_mbps
            &&& cfg.min_mbps == 0 ==> c.min_mbps == 1
            &&& cfg.max_mbps >= c.min_mbps ==> c.max_mbps == cfg.max_mbps
            &&& cfg.max_mbps < c.min_mbps ==> c.max_mbps == c.min_mbps
            &&& c.min_mbps <= cfg.target_mbps <= c.max_mbps ==> c.target_mbps == cfg.target_mbps
            &&& cfg.target_mbps < c.min_mbps ==> c.target_mbps == c.min_mbps
            &&& cfg.target_mbps > c.max_mbps ==> c.target_mbps == c.max_mbps
            &&& cfg.pin.len() > 0 ==> c.pin == cfg.pin
            &&& cfg.pin.len() == 0 ==> c.pin == "0000"@
        }),
{
}

/// The settings are stored below the directory that the platform keeps them in, where that is
/// known: the home directory on a Mac and elsewhere, the application data on Windows. Where it
/// is not, a single name stands for a file in the working directory.
pub proof fn settings_stay_below_their_directory(
    platform: Platform,
    home: Option<Seq<char>>,
    appdata: Option<Seq<char>>,
)
    ensures
        ({
            let parts = config_parts(platform, home, appdata);
            let below = if platform == Platform::Windows {
                appdata
            } else {
                home
            };
            &&& below matches Some(dir) ==> parts.len() >= 2 && parts[0] == dir
            &&& below is None ==> parts == seq!["lansec-config.json"@]
            &&& platform == Platform::Windows && appdata is Some ==> parts.skip(1) == seq![
                "lansec"@,
                "config.json"@,
            ]
            &&& platform == Platform::Macos && home is Some ==> parts.skip(1) == seq![
                "Library/Application Support/lansec/config.json"@,
            ]
            &&& platform == Platform::Unknown && home is Some ==> parts.skip(1) == seq![
                ".config/lansec/config.json"@,
            ]
        }),
{
    let parts = config_parts(platform, home, appdata);
    if platform == Platform::Windows && appdata is Some {
        assert(parts.skip(1) =~= seq!["lansec"@, "config.json"@]);
    }
    if platform == Platform::Macos && home is Some {
        assert(parts.skip(1) =~= seq!["Library/Application Support/lansec/config.json"@]);
    }
    if platform == Platform::Unknown && home is Some {
        assert(parts.skip(1) =~= seq![".config/lansec/config.json"@]);
    }
}

/// The bitrates are the settings' megabits in bits, as far as thirty-two bits go. With settings
/// in range the target lies between the limits.
pub proof fn bitrates_are_the_settings(cfg: ConfigModel)
    ensures
        cfg.min_mbps <= 4294 ==> cfg.rates().0 == cfg.min_mbps * 1_000_000,
        cfg.target_mbps <= 4294 ==> cfg.rates().1 == cfg.target_mbps * 1_000_000,
        cfg.max_mbps <= 4294 ==> cfg.rates().2 == cfg.max_mbps * 1_000_000,
        cfg.in_range() ==> cfg.rates().0 <= cfg.rates().1 <= cfg.rates().2,
        cfg.clamp().rates().0 <= cfg.clamp().rates().1 <= cfg.clamp().rates().2,
{
    clamp_lands_in_range(cfg);
}

} // verus!
