use vstd::prelude::*;

verus! {

/// The whole configuration, read from `~/.config/agentverse/config.toml`.
/// It has no `Debug`, so that the API key is never printed.
#[derive(Clone)]
pub struct AppConfig {
    pub world: WorldConfig,
    pub server: ServerConfig,
    pub a2a: A2aConfig,
    pub gui: GuiConfig,
}

/// Size of the world and length of a simulation tick.
#[derive(Debug, Clone, Copy)]
pub struct WorldConfig {
    pub width: u16,
    pub height: u16,
    pub tick_ms: u64,
}

/// Where the REST API listens, whether it runs, and its API key (all
/// endpoints but `/health` require it in the `X-API-Key` header).
#[derive(Clone)]
pub struct ServerConfig {
    pub host: String,
    pub port: u16,
    pub enabled: bool,
    pub api_key: Option<String>,
}

/// A2A endpoints to connect and how often to look for agents there.
#[derive(Debug, Clone)]
pub struct A2aConfig {
    pub endpoints: Vec<String>,
    pub discovery_interval_secs: u64,
}

/// Window and sidebar of the graphical front end.
#[derive(Debug, Clone, Copy)]
pub struct GuiConfig {
    pub window_width: i32,
    pub window_height: i32,
    pub sidebar_visible: bool,
    pub sidebar_width: i32,
}

pub fn default_win_width() -> (v: i32)
    ensures
        v == 1200,
{
    1200
}

pub fn default_win_height() -> (v: i32)
    ensures
        v == 800,
{
    800
}

pub fn default_sidebar_visible() -> (v: bool)
    ensures
        v,
{
    true
}

pub fn default_sidebar_width() -> (v: i32)
    ensures
        v == 280,
{
    280
}

pub fn default_width() -> (v: u16)
    ensures
        v == 28,
{
    28
}

pub fn default_height() -> (v: u16)
    ensures
        v == 20,
{
    20
}

pub fn default_tick_ms() -> (v: u64)
    ensures
        v == 200,
{
    200
}

pub fn default_host() -> (v: String)
    ensures
        v@ == "127.0.0.1"@,
{
    String::from_str("127.0.0.1")
}

pub fn default_port() -> (v: u16)
    ensures
        v == 18800,
{
    18800
}

pub fn default_enabled() -> (v: bool)
    ensures
        v,
{
    true
}

pub fn default_discovery_interval() -> (v: u64)
    ensures
        v == 30,
{
    30
}

impl Default for GuiConfig {
    fn default() -> (c: GuiConfig)
        ensures
            c.window_width == 1200,
            c.window_height == 800,
            c.sidebar_visible,
            c.sidebar_width == 280,
    {
        GuiConfig {
            window_width: default_win_width(),
            window_height: default_win_height(),
            sidebar_visible: default_sidebar_visible(),
            sidebar_width: default_sidebar_width(),
        }
    }
}

impl Default for WorldConfig {
    fn default() -> (c: WorldConfig)
        ensures
            c.width == 28,
            c.height == 20,
            c.tick_ms == 200,
    {
        WorldConfig { width: default_width(), height: default_height(), tick_ms: default_tick_ms() }
    }
}

impl Default for ServerConfig {
    fn default() -> (c: ServerConfig)
        ensures
            c.host@ == "127.0.0.1"@,
            c.port == 18800,
            c.enabled,
            c.api_key is None,
    {
        ServerConfig { host: default_host(), port: default_port(), enabled: default_enabled(), api_key: None }
    }
}

impl Default for A2aConfig {
    fn default() -> (c: A2aConfig)
        ensures
            c.endpoints@.len() == 0,
            c.discovery_interval_secs == 30,
    {
        A2aConfig { endpoints: Vec::new(), discovery_interval_secs: default_discovery_interval() }
    }
}

impl Default for AppConfig {
    fn default() -> (c: AppConfig)
        ensures
            c.world.width == 28,
            c.world.height == 20,
            c.world.tick_ms == 200,
            c.server.host@ == "127.0.0.1"@,
            c.server.port == 18800,
            c.server.enabled,
            c.server.api_key is None,
            c.a2a.endpoints@.len() == 0,
            c.a2a.discovery_interval_secs == 30,
            c.gui.window_width == 1200,
            c.gui.window_height == 800,
            c.gui.sidebar_visible,
            c.gui.sidebar_width == 280,
    {
        AppConfig {
            world: WorldConfig::default(),
            server: ServerConfig::default(),
            a2a: A2aConfig::default(),
            gui: GuiConfig::default(),
        }
    }
}

} // verus!
