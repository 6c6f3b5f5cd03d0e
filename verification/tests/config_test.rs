use agentverse::config::{AppConfig, GuiConfig};

#[test]
fn test_default_config() {
    let config = AppConfig::default();
    assert_eq!(config.world.width, 28);
    assert_eq!(config.world.height, 20);
    assert_eq!(config.world.tick_ms, 200);
    assert_eq!(config.server.host, "127.0.0.1");
    assert_eq!(config.server.port, 18800);
    assert!(config.server.enabled);
    assert!(config.server.api_key.is_none());
    assert!(config.a2a.endpoints.is_empty());
    assert_eq!(config.a2a.discovery_interval_secs, 30);
}

#[test]
fn test_gui_config_defaults() {
    let gui = GuiConfig::default();
    assert_eq!(gui.window_width, 1200);
    assert_eq!(gui.window_height, 800);
    assert!(gui.sidebar_visible);
    assert_eq!(gui.sidebar_width, 280);
}
