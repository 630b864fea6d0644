//! What the environment and the command line set.

use crate::clock;
use crate::clock::Duration;
use crate::text;
use crate::text::same;
use vstd::prelude::*;

verus! {

/// `n`, moved into the range from `min` to `max`.
pub open spec fn clamped(n: u64, min: u64, max: u64) -> u64 {
    if n < min {
        min
    } else if n > max {
        max
    } else {
        n
    }
}

/// The number that a setting holds; the default where it is missing or no number.
pub open spec fn setting(value: Option<Seq<char>>, default: u64) -> u64 {
    match value {
        Some(s) => match text::parsed(s, u64::MAX as nat) {
            Some(n) => n as u64,
            None => default,
        },
        None => default,
    }
}

fn clamp(n: u64, min: u64, max: u64) -> (r: u64)
    ensures
        r == clamped(n, min, max),
{
    if n < min {
        min
    } else if n > max {
        max
    } else {
        n
    }
}

/// The number that a setting holds, moved into its range; the default where it is missing or no
/// number.
pub fn clamp_setting(value: Option<&str>, min: u64, max: u64, default: u64) -> (n: u64)
    ensures
        n == clamped(setting(value.deep_view(), default), min, max),
{
    let n: u64 = match value {
        Some(s) => match text::parse_decimal(s, u64::MAX) {
            Some(n) => n,
            None => default,
        },
        None => default,
    };
    clamp(n, min, max)
}

/// A setting in seconds, moved into its range; the default where it is missing or no number.
pub fn clamp_env_secs(value: Option<&str>, min: u64, max: u64, default: u64) -> (d: Duration)
    ensures
        d == clamped(setting(value.deep_view(), default), min, max) * clock::NANOS_PER_SEC,
        d <= clock::LAST_INSTANT,
{
    clock::secs(clamp_setting(value, min, max, default))
}

/// The spans of time that the hub goes by.
#[derive(Clone, Copy)]
pub struct Settings {
    /// How long a recipient may answer without a grant.
    pub reply_ttl: Duration,
    /// How long a message waits for the governor's ruling.
    pub hold_ttl: Duration,
    /// How long a token that never opened a stream is kept.
    pub gc_unlisten: Duration,
    /// How long a token without a name or a grant is kept.
    pub gc_no_grant: Duration,
    /// How long a participant who went away still counts as there.
    pub settle_window: Duration,
}

impl Settings {
    /// The settings under the texts that the environment gives for them.
    pub open spec fn given(
        reply_ttl: Option<Seq<char>>,
        hold_ttl: Option<Seq<char>>,
        gc_unlisten: Option<Seq<char>>,
        gc_no_grant: Option<Seq<char>>,
        settle_window: Option<Seq<char>>,
    ) -> Settings {
        Settings {
            reply_ttl: (clamped(setting(reply_ttl, 120), 5, 600) * clock::NANOS_PER_SEC) as Duration,
            hold_ttl: (clamped(setting(hold_ttl, 60), 10, 300) * clock::NANOS_PER_SEC) as Duration,
            gc_unlisten: (clamped(setting(gc_unlisten, 300), 60, 3600)
                * clock::NANOS_PER_SEC) as Duration,
            gc_no_grant: (clamped(setting(gc_no_grant, 1800), 120, 7200)
                * clock::NANOS_PER_SEC) as Duration,
            settle_window: (clamped(setting(settle_window, 30), 1, 300)
                * clock::NANOS_PER_SEC) as Duration,
        }
    }

    /// The settings under the texts that the environment gives for them.
    pub fn from_values(
        reply_ttl: Option<&str>,
        hold_ttl: Option<&str>,
        gc_unlisten: Option<&str>,
        gc_no_grant: Option<&str>,
        settle_window: Option<&str>,
    ) -> (s: Settings)
        ensures
            s == Settings::given(
                reply_ttl.deep_view(),
                hold_ttl.deep_view(),
                gc_unlisten.deep_view(),
                gc_no_grant.deep_view(),
                settle_window.deep_view(),
            ),
            s.reply_ttl <= clock::LAST_INSTANT,
            s.hold_ttl <= clock::LAST_INSTANT,
    {
        Settings {
            reply_ttl: clamp_env_secs(reply_ttl, 5, 600, 120),
            hold_ttl: clamp_env_secs(hold_ttl, 10, 300, 60),
            gc_unlisten: clamp_env_secs(gc_unlisten, 60, 3600, 300),
            gc_no_grant: clamp_env_secs(gc_no_grant, 120, 7200, 1800),
            settle_window: clamp_env_secs(settle_window, 1, 300, 30),
        }
    }
}

impl Default for Settings {
    /// The settings where the environment gives none.
    fn default() -> (s: Settings)
        ensures
            s == Settings::given(None, None, None, None, None),
    {
        Settings::from_values(None, None, None, None, None)
    }
}

/// How the service is started.
pub struct Config {
    pub port: u16,
    pub insecure_http: bool,
    pub liveness_window_secs: u64,
    pub token_store_path: String,
}

/// What the start of the service holds.
pub struct ConfigView {
    pub port: u16,
    pub insecure_http: bool,
    pub liveness_window_secs: u64,
    pub token_store_path: Seq<char>,
}

impl DeepView for Config {
    type V = ConfigView;

    open spec fn deep_view(&self) -> ConfigView {
        ConfigView {
            port: self.port,
            insecure_http: self.insecure_http,
            liveness_window_secs: self.liveness_window_secs,
            token_store_path: self.token_store_path@,
        }
    }
}

/// What the command line has set so far.
pub struct Options {
    pub port: Option<u16>,
    pub insecure_http: bool,
    pub liveness: u64,
    pub store: Option<String>,
}

/// What options hold.
pub struct OptionsView {
    pub port: Option<u16>,
    pub insecure_http: bool,
    pub liveness: u64,
    pub store: Option<Seq<char>>,
}

impl DeepView for Options {
    type V = OptionsView;

    open spec fn deep_view(&self) -> OptionsView {
        OptionsView {
            port: self.port,
            insecure_http: self.insecure_http,
            liveness: self.liveness,
            store: self.store.deep_view(),
        }
    }
}

impl OptionsView {
    /// Nothing was set.
    pub open spec fn unset() -> OptionsView {
        OptionsView { port: None, insecure_http: false, liveness: 30, store: None }
    }

    /// The options after the arguments from the `i`th on; none where help is asked for.
    pub open spec fn scan(self, args: Seq<Seq<char>>, i: int) -> Option<OptionsView>
        decreases args.len() - i,
    {
        if i >= args.len() {
            Some(self)
        } else if args[i] == "--help"@ || args[i] == "-h"@ {
            None
        } else if args[i] == "--insecure-http"@ {
            OptionsView { insecure_http: true, ..self }.scan(args, i + 1)
        } else if args[i] == "--port"@ {
            if i + 1 < args.len() {
                OptionsView {
                    port: match text::parsed(args[i + 1], u16::MAX as nat) {
                        Some(n) => Some(n as u16),
                        None => None,
                    },
                    ..self
                }.scan(args, i + 2)
            } else {
                Some(self)
            }
        } else if args[i] == "--liveness-window-secs"@ {
            if i + 1 < args.len() {
                OptionsView {
                    liveness: clamped(setting(Some(args[i + 1]), 30), 5, 600),
                    ..self
                }.scan(args, i + 2)
            } else {
                Some(self)
            }
        } else if args[i] == "--token-store-path"@ {
            if i + 1 < args.len() {
                OptionsView { store: Some(args[i + 1]), ..self }.scan(args, i + 2)
            } else {
                Some(self)
            }
        } else {
            self.scan(args, i + 1)
        }
    }

    /// What the options and the environment come to. Where no port was given, it is the one for
    /// plain HTTP under that option, and the other one else.
    pub open spec fn config(
        self,
        insecure: Option<Seq<char>>,
        liveness: Option<Seq<char>>,
        store: Option<Seq<char>>,
    ) -> ConfigView {
        ConfigView {
            port: match self.port {
                Some(port) => port,
                None => if self.insecure_http {
                    8080
                } else {
                    8443
                },
            },
            insecure_http: self.insecure_http || insecure == Some("1"@),
            liveness_window_secs: match liveness {
                Some(s) => match text::parsed(s, u64::MAX as nat) {
                    Some(n) => clamped(n as u64, 5, 600),
                    None => self.liveness,
                },
                None => self.liveness,
            },
            token_store_path: match self.store {
                Some(path) => path,
                None => match store {
                    Some(path) => if path.len() > 0 {
                        path
                    } else {
                        "sim-tokens.db"@
                    },
                    None => "sim-tokens.db"@,
                },
            },
        }
    }
}

impl Options {
    fn scan(args: &Vec<String>) -> (r: Option<Options>)
        ensures
            r.deep_view() == OptionsView::unset().scan(args.deep_view(), 1),
    {
        let mut o = Options { port: None, insecure_http: false, liveness: 30, store: None };
        let mut i: usize = 1;
        while i < args.len()
            invariant
                o.deep_view().scan(args.deep_view(), i as int) == OptionsView::unset().scan(
                    args.deep_view(),
                    1,
                ),
            decreases args@.len() - i,
        {
            let arg = args[i].as_str();
            if same(arg, "--help") || same(arg, "-h") {
                return None;
            }
            let takes = same(arg, "--port") || same(arg, "--liveness-window-secs") || same(
                arg,
                "--token-store-path",
            );
            assert(args.deep_view()[i as int] == arg@);
            if same(arg, "--insecure-http") {
                o.insecure_http = true;
            } else if takes {
                if args.len() - i > 1 {
                    let value = args[i + 1].as_str();
                    assert(args.deep_view()[i + 1] == value@);
                    if same(arg, "--port") {
                        o.port = match text::parse_decimal(value, 65535) {
                            Some(n) => Some(n as u16),
                            None => None,
                        };
                    } else if same(arg, "--liveness-window-secs") {
                        o.liveness = clamp_setting(Some(value), 5, 600, 30);
                    } else {
                        o.store = Some(value.to_owned());
                    }
                    i += 2;
                    continue ;
                }
                return Some(o);
            }
            i += 1;
        }
        Some(o)
    }
}

impl Config {
    /// The start of the service under the command line, program name included, and the texts that
    /// the environment gives; none where help is asked for.
    pub fn from_env_and_args(
        args: &Vec<String>,
        insecure: Option<&str>,
        liveness: Option<&str>,
        store: Option<&str>,
    ) -> (r: Option<Config>)
        ensures
            r.deep_view() == match OptionsView::unset().scan(args.deep_view(), 1) {
                Some(o) => Some(
                    o.config(insecure.deep_view(), liveness.deep_view(), store.deep_view()),
                ),
                None => None,
            },
    {
        let o = match Options::scan(args) {
            Some(o) => o,
            None => return None,
        };
        let insecure_env = match insecure {
            Some(s) => same(s, "1"),
            None => false,
        };
        let liveness_window_secs: u64 = match liveness {
            Some(s) => match text::parse_decimal(s, u64::MAX) {
                Some(n) => clamp(n, 5, 600),
                None => o.liveness,
            },
            None => o.liveness,
        };
        let token_store_path = match o.store {
            Some(path) => path,
            None => match store {
                Some(path) => if text::chars_of(path).len() > 0 {
                    path.to_owned()
                } else {
                    "sim-tokens.db".to_owned()
                },
                None => "sim-tokens.db".to_owned(),
            },
        };
        Some(
            Config {
                port: match o.port {
                    Some(port) => port,
                    None => if o.insecure_http {
                        8080
                    } else {
                        8443
                    },
                },
                insecure_http: o.insecure_http || insecure_env,
                liveness_window_secs,
                token_store_path,
            },
        )
    }
}

} // verus!
