//! The settings of the server, their defaults, and how the environment
//! overrides them.

use vstd::prelude::*;
use vstd::string::*;
use crate::driver::{AppServiceConfig, BotConfig};
use crate::encoding::{digits_value, is_numeral, parse_numeral};
use crate::foreign::{lowercase_of, to_lowercase};
use crate::text::{
    chars_of, leading_pattern_run, matches_at, occurs_at, opt_clone, opt_view, slice_of,
    str_starts_with, trim_leading_pattern,
};

verus! {

/// What the name of every variable of the environment begins with that is
/// meant for this server.
pub open spec fn env_prefix() -> Seq<char> {
    "CUMMENTS_"@
}

/// What stands for a dot in the name of a variable.
pub open spec fn level_mark() -> Seq<char> {
    "__"@
}

/// `s` with every occurrence of `from` replaced by `to`, read from the left.
pub open spec fn replaced(s: Seq<char>, from: Seq<char>, to: Seq<char>) -> Seq<char>
    decreases s.len(),
{
    if s.len() == 0 {
        s
    } else if from.len() > 0 && occurs_at(s, from, 0) {
        to + replaced(s.skip(from.len() as int), from, to)
    } else {
        seq![s[0]] + replaced(s.drop_first(), from, to)
    }
}

/// `s` with every occurrence of `from` replaced by `to`.
pub fn replace_all(s: &str, from: &str, to: &str) -> (r: String)
    ensures
        r@ == replaced(s@, from@, to@),
{
    let v = chars_of(s);
    let f = chars_of(from);
    let mut out = String::new();
    let mut i: usize = 0;
    assert(v@.skip(0) =~= v@);
    assert(out@ + replaced(v@, f@, to@) =~= replaced(v@, f@, to@));
    while i < v.len()
        invariant
            i <= v.len(),
            v@ == s@,
            f@ == from@,
            out@ + replaced(v@.skip(i as int), f@, to@) == replaced(s@, f@, to@),
        decreases v.len() - i,
    {
        let ghost rest = v@.skip(i as int);
        let ghost before = out@;
        if f.len() > 0 && matches_at(&v, &f, i) {
            proof {
                assert(rest.subrange(0, f.len() as int) =~= v@.subrange(i as int, i + f.len()));
                assert(occurs_at(rest, f@, 0));
                assert(rest.skip(f.len() as int) =~= v@.skip(i + f.len()));
            }
            out.append(to);
            i += f.len();
            assert(out@ + replaced(v@.skip(i as int), f@, to@) =~= before + (to@ + replaced(
                v@.skip(i as int),
                f@,
                to@,
            )));
        } else {
            proof {
                if f.len() > 0 && occurs_at(rest, f@, 0) {
                    assert(rest.subrange(0, f.len() as int) =~= v@.subrange(
                        i as int,
                        i + f.len(),
                    ));
                    assert(false);
                }
                assert(rest.drop_first() =~= v@.skip(i + 1));
                assert(rest[0] == v@[i as int]);
            }
            let one = slice_of(s, i, i + 1);
            assert(one@ =~= seq![v@[i as int]]);
            out.append(one.as_str());
            i += 1;
            assert(out@ + replaced(v@.skip(i as int), f@, to@) =~= before + (seq![rest[0]]
                + replaced(v@.skip(i as int), f@, to@)));
        }
    }
    assert(v@.skip(v.len() as int) =~= Seq::<char>::empty());
    assert(out@ + Seq::<char>::empty() =~= out@);
    out
}

/// The setting that a variable of the environment stands for: none unless
/// its name begins with the prefix; else the name without the prefix, with
/// dots for the marks of levels, in lower case.
pub open spec fn setting_path(key: Seq<char>) -> Option<Seq<char>> {
    if occurs_at(key, env_prefix(), 0) {
        Some(
            lowercase_of(
                replaced(trim_leading_pattern(key, env_prefix()), level_mark(), "."@),
            ),
        )
    } else {
        None
    }
}

/// The setting that a variable of the environment stands for.
pub fn env_key_path(key: &str) -> (r: Option<String>)
    ensures
        opt_view(r) == setting_path(key@),
{
    if !str_starts_with(key, "CUMMENTS_") {
        return None;
    }
    let v = chars_of(key);
    let p = chars_of("CUMMENTS_");
    let start = leading_pattern_run(&v, &p);
    let n = v.len();
    let rest = slice_of(key, start, n);
    let dotted = replace_all(rest.as_str(), "__", ".");
    Some(to_lowercase(dotted.as_str()))
}

/// The settings that the variables of an environment stand for, in the
/// order of the variables: those that are meant for this server, each
/// under the name of its setting.
pub open spec fn settings_of(vars: Seq<(Seq<char>, Seq<char>)>) -> Seq<(Seq<char>, Seq<char>)>
    decreases vars.len(),
{
    if vars.len() == 0 {
        vars
    } else {
        let rest = settings_of(vars.drop_last());
        match setting_path(vars.last().0) {
            Some(path) => rest.push((path, vars.last().1)),
            None => rest,
        }
    }
}

pub open spec fn pair_views(v: Seq<(String, String)>) -> Seq<(Seq<char>, Seq<char>)> {
    Seq::new(v.len(), |i: int| (v[i].0@, v[i].1@))
}

/// Picks the variables that are meant for this server out of an
/// environment, and names each by its setting.
pub fn collect_env_vars(vars: &Vec<(String, String)>) -> (r: Vec<(String, String)>)
    ensures
        pair_views(r@) == settings_of(pair_views(vars@)),
{
    let mut out: Vec<(String, String)> = Vec::new();
    let mut i: usize = 0;
    let ghost all = pair_views(vars@);
    assert(all.take(0) =~= Seq::<(Seq<char>, Seq<char>)>::empty());
    assert(pair_views(out@) =~= Seq::<(Seq<char>, Seq<char>)>::empty());
    while i < vars.len()
        invariant
            i <= vars.len(),
            all == pair_views(vars@),
            pair_views(out@) == settings_of(all.take(i as int)),
        decreases vars.len() - i,
    {
        proof {
            let cur = all.take(i + 1);
            assert(cur.drop_last() =~= all.take(i as int));
            assert(cur.last() == all[i as int]);
        }
        match env_key_path(vars[i].0.as_str()) {
            Some(path) => {
                let ghost before = pair_views(out@);
                let value = vars[i].1.clone();
                out.push((path, value));
                assert(pair_views(out@) =~= before.push((path@, vars@[i as int].1@)));
            },
            None => {},
        }
        i += 1;
    }
    assert(all.take(vars.len() as int) =~= all);
    out
}

/// The value of a setting in an environment: that of the variable with the
/// prefix, where there is one, and else that of the variable without.
pub fn pick_env<'a>(prefixed: Option<&'a str>, plain: Option<&'a str>) -> (r: Option<&'a str>)
    ensures
        r == (match prefixed {
            Some(v) => Some(v),
            None => plain,
        }),
{
    match prefixed {
        Some(v) => Some(v),
        None => plain,
    }
}

/// The port that a text names, if it names one: a numeral up to 65535.
pub open spec fn port_of(s: Seq<char>) -> Option<u16> {
    if is_numeral(s) && digits_value(s) <= u16::MAX {
        Some(digits_value(s) as u16)
    } else {
        None
    }
}

/// Reads a port.
pub fn parse_port(s: &str) -> (r: Option<u16>)
    ensures
        r == port_of(s@),
{
    match parse_numeral(s) {
        Some(n) => if n <= 65535 {
            Some(n as u16)
        } else {
            None
        },
        None => None,
    }
}

/// The port that an environment sets: the value that `pick_env` picks,
/// where it names a port, and the default else.
pub fn port_from_env(prefixed: Option<&str>, plain: Option<&str>, default: u16) -> (r: u16)
    ensures
        r == (match pick_env_spec(prefixed, plain) {
            Some(v) => match port_of(v@) {
                Some(p) => p,
                None => default,
            },
            None => default,
        }),
{
    match pick_env(prefixed, plain) {
        Some(v) => match parse_port(v) {
            Some(p) => p,
            None => default,
        },
        None => default,
    }
}

pub open spec fn pick_env_spec<'a>(prefixed: Option<&'a str>, plain: Option<&'a str>) -> Option<
    &'a str,
> {
    match prefixed {
        Some(v) => Some(v),
        None => plain,
    }
}

/// Where the server listens and who may call it.
#[derive(Debug)]
pub struct ServerSettings {
    pub host: String,
    pub port: u16,
    /// The origins that may call, with commas between them, or a star for all.
    pub cors_origins: String,
    /// The name of the server of rooms as the public knows it, for links.
    pub public_server_name: String,
}

#[derive(Debug)]
pub struct DatabaseSettings {
    pub url: String,
}

#[derive(Debug)]
pub struct SecuritySettings {
    pub identity_salt: String,
    pub admin_token: String,
    pub pow_secret: String,
}

/// How the bridge reaches the network of rooms.
#[derive(Debug)]
pub enum MatrixSettings {
    Bot {
        homeserver_url: String,
        user: String,
        token: String,
        device_id: Option<String>,
        owner_id: Option<String>,
    },
    AppService {
        homeserver_url: String,
        server_name: String,
        as_token: String,
        hs_token: String,
        bot_localpart: String,
        listen_port: u16,
        owner_id: Option<String>,
    },
}

#[derive(Debug)]
pub struct Settings {
    pub server: ServerSettings,
    pub database: DatabaseSettings,
    pub matrix: MatrixSettings,
    pub security: SecuritySettings,
}

/// The device that the pull driver goes by where none is set.
pub open spec fn default_device() -> Seq<char> {
    "CUMMENTS_BOT"@
}

/// How the driver is set up that the settings ask for.
#[derive(Debug)]
pub enum DriverConfig {
    Bot(BotConfig),
    AppService(AppServiceConfig),
}

impl ServerSettings {
    /// The server as it is set up where nothing is said.
    pub fn defaults() -> (s: ServerSettings)
        ensures
            s.host@ == "0.0.0.0"@,
            s.port == 3000,
            s.cors_origins@ == "*"@,
            s.public_server_name@ == "matrix.org"@,
    {
        ServerSettings {
            host: "0.0.0.0".to_string(),
            port: 3000,
            cors_origins: "*".to_string(),
            public_server_name: "matrix.org".to_string(),
        }
    }
}

impl DatabaseSettings {
    pub fn defaults() -> (s: DatabaseSettings)
        ensures
            s.url@ == "sqlite://data/cumments.db"@,
    {
        DatabaseSettings { url: "sqlite://data/cumments.db".to_string() }
    }
}

impl Settings {
    /// How the driver is set up that the settings ask for. The salt of
    /// identities is that of the security settings for either driver.
    pub fn driver_config(&self) -> (c: DriverConfig)
        ensures
            match (c, self.matrix) {
                (
                    DriverConfig::Bot(b),
                    MatrixSettings::Bot { homeserver_url, user, token, device_id, owner_id },
                ) => {
                    &&& b.homeserver_url@ == homeserver_url@
                    &&& b.user_id@ == user@
                    &&& b.access_token@ == token@
                    &&& b.identity_salt@ == self.security.identity_salt@
                    &&& b.device_id@ == (match device_id {
                        Some(d) => d@,
                        None => default_device(),
                    })
                    &&& opt_view(b.owner_id) == opt_view(owner_id)
                },
                (
                    DriverConfig::AppService(a),
                    MatrixSettings::AppService {
                        homeserver_url,
                        server_name,
                        as_token,
                        hs_token,
                        bot_localpart,
                        listen_port,
                        owner_id,
                    },
                ) => {
                    &&& a.homeserver_url@ == homeserver_url@
                    &&& a.server_name@ == server_name@
                    &&& a.as_token@ == as_token@
                    &&& a.hs_token@ == hs_token@
                    &&& a.bot_localpart@ == bot_localpart@
                    &&& a.listen_port == listen_port
                    &&& a.identity_salt@ == self.security.identity_salt@
                    &&& opt_view(a.owner_id) == opt_view(owner_id)
                },
                _ => false,
            },
    {
        match &self.matrix {
            MatrixSettings::Bot { homeserver_url, user, token, device_id, owner_id } => {
                DriverConfig::Bot(
                    BotConfig {
                        homeserver_url: homeserver_url.clone(),
                        user_id: user.clone(),
                        access_token: token.clone(),
                        identity_salt: self.security.identity_salt.clone(),
                        device_id: match device_id {
                            Some(d) => d.clone(),
                            None => "CUMMENTS_BOT".to_string(),
                        },
                        owner_id: opt_clone(owner_id),
                    },
                )
            },
            MatrixSettings::AppService {
                homeserver_url,
                server_name,
                as_token,
                hs_token,
                bot_localpart,
                listen_port,
                owner_id,
            } => DriverConfig::AppService(
                AppServiceConfig {
                    homeserver_url: homeserver_url.clone(),
                    server_name: server_name.clone(),
                    as_token: as_token.clone(),
                    hs_token: hs_token.clone(),
                    bot_localpart: bot_localpart.clone(),
                    listen_port: *listen_port,
                    identity_salt: self.security.identity_salt.clone(),
                    owner_id: opt_clone(owner_id),
                },
            ),
        }
    }
}

} // verus!
