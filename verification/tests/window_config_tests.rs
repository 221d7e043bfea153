use pake::config::{FunctionON, PakeConfig, UserAgent, WindowConfig};
use pake::window::{build_proxy_browser_arg, MultiWindowState};
use pake::builder::parse_proxy_url;
use pake::web_url::WebUrl;

fn sample_window(label: Option<&str>, url: &str) -> WindowConfig {
    WindowConfig {
        url: url.to_string(),
        hide_title_bar: false,
        fullscreen: false,
        maximize: false,
        width_bits: 1200.0f64.to_bits(),
        height_bits: 780.0f64.to_bits(),
        resizable: true,
        url_type: "web".to_string(),
        always_on_top: false,
        dark_mode: false,
        disabled_web_shortcuts: false,
        activation_shortcut: String::new(),
        hide_on_close: true,
        incognito: false,
        title: None,
        enable_wasm: false,
        enable_drag_drop: false,
        new_window: false,
        label: label.map(str::to_string),
        start_to_tray: false,
        force_internal_navigation: false,
        internal_url_regex: String::new(),
        enable_find: false,
        zoom: 100,
        min_width_bits: 0.0f64.to_bits(),
        min_height_bits: 0.0f64.to_bits(),
        ignore_certificate_errors: false,
    }
}

fn sample_config(windows: Vec<WindowConfig>) -> PakeConfig {
    PakeConfig {
        windows,
        user_agent: UserAgent {
            macos: String::new(),
            linux: String::new(),
            windows: String::new(),
        },
        system_tray: FunctionON {
            macos: false,
            linux: false,
            windows: false,
        },
        system_tray_path: String::new(),
        proxy_url: String::new(),
        multi_instance: false,
        multi_window: true,
    }
}

#[test]
fn window_config_by_label_returns_matching_config() {
    let config = sample_config(vec![
        sample_window(Some("pake"), "https://my-web.com/dashboard"),
        sample_window(Some("camera"), "https://my-web.com/camera"),
    ]);

    let camera = config.window_config_by_label("camera").unwrap();
    assert_eq!(camera.url, "https://my-web.com/camera");
}

#[test]
fn window_config_by_label_rejects_unknown_label() {
    let config = sample_config(vec![sample_window(
        Some("pake"),
        "https://my-web.com/dashboard",
    )]);

    assert!(config.window_config_by_label("unknown").is_err());
}

#[test]
fn validate_window_labels_rejects_duplicates() {
    let config = sample_config(vec![
        sample_window(Some("camera"), "https://my-web.com/camera"),
        sample_window(Some("camera"), "https://my-web.com/monitor"),
    ]);

    assert!(config.validate_window_labels().is_err());
}

#[test]
fn route_window_templates_excludes_main_window() {
    let config = sample_config(vec![
        sample_window(Some("pake"), "https://my-web.com/dashboard"),
        sample_window(Some("camera"), "https://my-web.com/camera"),
    ]);

    let templates = config.route_window_templates();
    assert_eq!(templates.len(), 1);
    assert_eq!(templates[0].label.as_deref(), Some("camera"));
}

#[test]
fn resolve_window_config_maps_route_instances_to_template() {
    let config = sample_config(vec![
        sample_window(Some("pake"), "https://my-web.com/"),
        sample_window(Some("live"), "https://my-web.com/live"),
    ]);

    let live = config.resolve_window_config("live-2").unwrap();
    assert_eq!(live.url, "https://my-web.com/live");
    assert!(config.is_route_instance_label("live-3"));
    assert!(!config.is_route_instance_label("pake-1"));
}

#[test]
fn next_route_template_round_robins_templates() {
    let mut state = MultiWindowState::new(sample_config(vec![
        sample_window(Some("pake"), "https://my-web.com/"),
        sample_window(Some("live"), "https://my-web.com/live"),
    ]));

    let templates = state.route_templates();
    assert_eq!(templates.len(), 1);
    assert_eq!(
        MultiWindowState::route_template_label(&templates[0]),
        "live"
    );
    assert_eq!(state.next_route_instance_label("live"), "live-1");
    assert_eq!(state.next_route_instance_label("live"), "live-2");
}

fn parse(url: &str) -> WebUrl {
    parse_proxy_url(url).unwrap()
}

#[test]
fn http_url_with_explicit_port() {
    let arg = build_proxy_browser_arg(&parse("http://127.0.0.1:7890")).unwrap();
    assert_eq!(arg, "--proxy-server=http://127.0.0.1:7890");
}

#[test]
fn http_url_uses_default_port_when_missing() {
    let arg = build_proxy_browser_arg(&parse("http://proxy.local")).unwrap();
    assert_eq!(arg, "--proxy-server=http://proxy.local:80");
}

#[test]
fn socks5_url_uses_default_port_when_missing() {
    let arg = build_proxy_browser_arg(&parse("socks5://proxy.local")).unwrap();
    assert_eq!(arg, "--proxy-server=socks5://proxy.local:1080");
}

#[test]
fn https_scheme_is_not_supported_yet() {
    // https proxies fall back to platform proxy_url; only http and socks5
    // proxies get a browser argument.
    assert!(build_proxy_browser_arg(&parse("https://proxy.local:8443")).is_none());
}
