use pake::builder::{
    browser_args, data_dir_name, download_file_name, parse_proxy_url, popup_title, window_title,
};
use pake::config::{default_zoom, FunctionON, PakeConfig, UserAgent, WindowConfig, MAIN_WINDOW_LABEL};
use pake::platform::{Platform, PlatformSpecific};
use pake::web_url::WebUrl;
use pake::window::{
    build_window_with_config, set_window, webview_url_for_config, MultiWindowState, WebviewTarget,
};

fn window(label: Option<&str>, url: &str, url_type: &str) -> WindowConfig {
    WindowConfig {
        url: url.to_string(),
        hide_title_bar: false,
        fullscreen: false,
        maximize: false,
        width_bits: 1200.0f64.to_bits(),
        height_bits: 780.0f64.to_bits(),
        resizable: true,
        url_type: url_type.to_string(),
        always_on_top: false,
        dark_mode: false,
        disabled_web_shortcuts: false,
        activation_shortcut: String::new(),
        hide_on_close: true,
        incognito: false,
        title: None,
        enable_wasm: false,
        enable_drag_drop: false,
        new_window: false,
        label: label.map(str::to_string),
        start_to_tray: false,
        force_internal_navigation: false,
        internal_url_regex: String::new(),
        enable_find: false,
        zoom: 100,
        min_width_bits: 0.0f64.to_bits(),
        min_height_bits: 0.0f64.to_bits(),
        ignore_certificate_errors: false,
    }
}

fn config(windows: Vec<WindowConfig>) -> PakeConfig {
    PakeConfig {
        windows,
        user_agent: UserAgent {
            macos: "mac-agent".to_string(),
            linux: "linux-agent".to_string(),
            windows: "windows-agent".to_string(),
        },
        system_tray: FunctionON {
            macos: true,
            linux: false,
            windows: true,
        },
        system_tray_path: String::new(),
        proxy_url: String::new(),
        multi_instance: false,
        multi_window: true,
    }
}

fn web(url: &str) -> WebUrl {
    WebUrl {
        scheme: "http".to_string(),
        host: None,
        port: None,
        path: "/".to_string(),
        serialization: url.to_string(),
    }
}

#[test]
fn default_zoom_is_one_hundred() {
    assert_eq!(default_zoom(), 100);
}

#[test]
fn platform_values_are_picked_per_platform() {
    let cfg = config(vec![]);
    assert_eq!(cfg.user_agent.get(Platform::MacOs), "mac-agent");
    assert_eq!(cfg.user_agent.get(Platform::Linux), "linux-agent");
    assert_eq!(cfg.user_agent.get(Platform::Windows), "windows-agent");
    let flags = PlatformSpecific { macos: 1u8, linux: 2u8, windows: 3u8 };
    assert_eq!(flags.copied(Platform::Linux), 2);
    assert!(cfg.show_system_tray(Platform::MacOs));
    assert!(!cfg.show_system_tray(Platform::Linux));
    assert!(cfg.show_system_tray(Platform::Windows));
}

#[test]
fn unlabelled_and_empty_labels_mean_main_label() {
    let cfg = config(vec![window(None, "https://a/", "web"), window(Some(""), "https://b/", "web")]);
    assert_eq!(cfg.main_window_label(), MAIN_WINDOW_LABEL);
    assert_eq!(cfg.window_config_by_label("pake").unwrap().url, "https://a/");
    assert_eq!(
        cfg.validate_window_labels().unwrap_err(),
        "Duplicate window label 'pake' in pake.json"
    );
    assert!(!cfg.has_route_templates());
}

#[test]
fn main_label_without_windows_is_default() {
    let cfg = config(vec![]);
    assert_eq!(cfg.main_window_label(), "pake");
    assert!(cfg.route_window_templates().is_empty());
    assert!(cfg.validate_window_labels().is_ok());
}

#[test]
fn main_label_is_first_window_label() {
    let cfg = config(vec![window(Some("home"), "https://a/", "web"), window(None, "https://b/", "web")]);
    assert_eq!(cfg.main_window_label(), "home");
    let templates = cfg.route_window_templates();
    assert_eq!(templates.len(), 1);
    assert_eq!(templates[0].url, "https://b/");
    assert!(cfg.has_route_templates());
}

#[test]
fn duplicate_error_names_first_repeated_label() {
    let cfg = config(vec![
        window(Some("a"), "https://a/", "web"),
        window(Some("b"), "https://b/", "web"),
        window(Some("b"), "https://c/", "web"),
        window(Some("a"), "https://d/", "web"),
    ]);
    assert_eq!(
        cfg.validate_window_labels().unwrap_err(),
        "Duplicate window label 'b' in pake.json"
    );
}

#[test]
fn distinct_labels_validate_and_find_their_window() {
    let cfg = config(vec![
        window(Some("pake"), "https://a/", "web"),
        window(Some("live"), "https://b/", "web"),
        window(Some("camera"), "https://c/", "web"),
    ]);
    assert!(cfg.validate_window_labels().is_ok());
    for w in &cfg.windows {
        let label = w.label.as_deref().unwrap();
        assert_eq!(cfg.window_config_by_label(label).unwrap().url, w.url);
        assert_eq!(cfg.resolve_window_config(label).unwrap().url, w.url);
    }
}

#[test]
fn unknown_label_error_text() {
    let cfg = config(vec![window(Some("pake"), "https://a/", "web")]);
    assert_eq!(
        cfg.window_config_by_label("nope").unwrap_err(),
        "Unknown window label 'nope'"
    );
    assert_eq!(
        cfg.resolve_window_config("nope-1").unwrap_err(),
        "Unknown window label 'nope-1'"
    );
}

#[test]
fn route_instance_needs_dash_and_suffix() {
    let cfg = config(vec![
        window(Some("pake"), "https://a/", "web"),
        window(Some("live"), "https://b/", "web"),
    ]);
    assert!(cfg.is_route_instance_label("live"));
    assert!(cfg.is_route_instance_label("live-x"));
    assert!(!cfg.is_route_instance_label("live-"));
    assert!(!cfg.is_route_instance_label("livex"));
    assert!(!cfg.is_route_instance_label("liv"));
    assert!(!cfg.is_route_instance_label("pake"));
    assert!(cfg.resolve_window_config("live-").is_err());
    assert_eq!(cfg.resolve_window_config("live-abc").unwrap().url, "https://b/");
}

#[test]
fn generated_instance_labels_resolve_to_their_template() {
    let mut state = MultiWindowState::new(config(vec![
        window(Some("pake"), "https://a/", "web"),
        window(Some("live"), "https://b/", "web"),
    ]));
    let first = state.next_route_instance_label("live");
    let second = state.next_route_instance_label("live");
    assert_ne!(first, second);
    assert!(state.pake_config.is_route_instance_label(&first));
    assert_eq!(state.pake_config.resolve_window_config(&second).unwrap().url, "https://b/");
    assert_eq!(state.next_route_instance_label("other"), "other-1");
    assert_eq!(state.next_route_instance_label("live"), "live-3");
}

#[test]
fn popup_labels_count_from_one() {
    let mut state = MultiWindowState::new(config(vec![window(None, "https://a/", "web")]));
    assert_eq!(state.next_popup_label(), "pake-1");
    assert_eq!(state.next_popup_label(), "pake-2");
}

#[test]
fn next_route_template_cycles() {
    let mut state = MultiWindowState::new(config(vec![
        window(Some("pake"), "https://a/", "web"),
        window(Some("live"), "https://b/", "web"),
        window(Some("camera"), "https://c/", "web"),
    ]));
    let labels: Vec<String> = (0..5)
        .map(|_| state.next_route_template().unwrap().label.unwrap())
        .collect();
    assert_eq!(labels, vec!["live", "camera", "live", "camera", "live"]);
    let mut lone = MultiWindowState::new(config(vec![window(None, "https://a/", "web")]));
    assert!(lone.next_route_template().is_none());
}

#[test]
fn web_url_target_is_external_for_http() {
    let target = webview_url_for_config(&window(None, "https://my-web.com/camera", "web")).unwrap();
    match target {
        WebviewTarget::External(u) => {
            assert_eq!(u.scheme, "https");
            assert_eq!(u.host.as_deref(), Some("my-web.com"));
            assert_eq!(u.port, None);
            assert_eq!(u.path, "/camera");
            assert_eq!(u.serialization, "https://my-web.com/camera");
        }
        WebviewTarget::App(_) => panic!("expected an external url"),
    }
}

#[test]
fn web_url_target_is_app_path_for_other_schemes() {
    let target = webview_url_for_config(&window(None, "file:///srv/index.html", "web")).unwrap();
    match target {
        WebviewTarget::App(p) => assert_eq!(p, "/srv/index.html"),
        WebviewTarget::External(_) => panic!("expected an app path"),
    }
}

#[test]
fn local_url_target_is_app_path() {
    let target = webview_url_for_config(&window(None, "index.html", "local")).unwrap();
    match target {
        WebviewTarget::App(p) => assert_eq!(p, "index.html"),
        WebviewTarget::External(_) => panic!("expected an app path"),
    }
}

#[test]
fn invalid_web_url_is_rejected() {
    let err = webview_url_for_config(&window(None, "not a url", "web")).unwrap_err();
    assert_eq!(
        err,
        "Invalid 'web' url 'not a url' in pake.json: relative URL without a base"
    );
}

#[test]
fn unknown_url_type_is_rejected() {
    let err = webview_url_for_config(&window(None, "x", "ftp")).unwrap_err();
    assert_eq!(err, "url_type must be 'web' or 'local', got 'ftp'");
}

#[test]
fn set_window_plans_main_window() {
    let cfg = config(vec![window(Some("home"), "index.html", "local")]);
    let plan = set_window(&cfg).unwrap();
    assert_eq!(plan.label, "home");
    assert!(!plan.visible);
    assert_eq!(plan.window.url, "index.html");
    assert_eq!(
        set_window(&config(vec![])).unwrap_err(),
        "pake.json must define at least one window configuration"
    );
    let hidden = build_window_with_config("x", &cfg.windows[0]).unwrap();
    assert_eq!(hidden.label, "x");
}

#[test]
fn open_additional_window_prefers_route_templates() {
    let mut state = MultiWindowState::new(config(vec![
        window(Some("pake"), "https://a/", "web"),
        window(Some("live"), "https://b/", "web"),
    ]));
    let plan = state.open_additional_window().unwrap();
    assert_eq!(plan.label, "live-1");
    assert_eq!(plan.window.url, "https://b/");
    let plan = state.open_additional_window().unwrap();
    assert_eq!(plan.label, "live-2");
}

#[test]
fn open_additional_window_opens_popups_without_templates() {
    let mut state = MultiWindowState::new(config(vec![window(None, "https://a/", "web")]));
    assert_eq!(state.open_additional_window().unwrap().label, "pake-1");
    assert_eq!(state.open_additional_window().unwrap().label, "pake-2");
    let mut empty = MultiWindowState::new(config(vec![]));
    assert_eq!(
        empty.open_additional_window().unwrap_err(),
        "pake.json must define at least one window configuration"
    );
}

#[test]
fn open_route_template_window_rejects_unknown_template() {
    let mut state = MultiWindowState::new(config(vec![window(None, "https://a/", "web")]));
    assert_eq!(
        state.open_route_template_window("live").unwrap_err(),
        "Unknown window label 'live'"
    );
    assert_eq!(state.next_route_instance_label("live"), "live-1");
}

#[test]
fn open_window_by_label_resolves_instances() {
    let state = MultiWindowState::new(config(vec![
        window(Some("pake"), "https://a/", "web"),
        window(Some("live"), "https://b/", "web"),
    ]));
    let plan = state.open_window_by_label("live-7").unwrap();
    assert_eq!(plan.label, "live-7");
    assert_eq!(plan.window.url, "https://b/");
    assert!(state.open_window_by_label("camera").is_err());
}

#[test]
fn requested_popup_is_visible_and_external() {
    let cfg = config(vec![window(None, "https://a/", "web")]);
    let mut state = MultiWindowState::new(cfg.clone());
    let plan = state.open_requested_window(&cfg, web("https://b/")).unwrap();
    assert_eq!(plan.label, "pake-1");
    assert!(plan.visible);
    match plan.url {
        WebviewTarget::External(u) => assert_eq!(u.serialization, "https://b/"),
        WebviewTarget::App(_) => panic!("expected an external url"),
    }
    let none = config(vec![]);
    assert!(state.open_requested_window(&none, web("https://b/")).is_err());
    assert_eq!(state.next_popup_label(), "pake-3");
}

#[test]
fn browser_args_per_platform() {
    let mut w = window(None, "https://a/", "web");
    w.ignore_certificate_errors = true;
    w.enable_wasm = true;
    let proxy = parse_proxy_url("socks5://127.0.0.1:1086");
    assert_eq!(
        browser_args(Platform::Windows, &w, &proxy),
        vec!["--disable-features=msWebOOUI,msPdfOOUI,msSmartScreenProtection --disable-blink-features=AutomationControlled --ignore-certificate-errors --enable-features=SharedArrayBuffer --enable-unsafe-webgpu --proxy-server=socks5://127.0.0.1:1086"]
    );
    assert_eq!(
        browser_args(Platform::Linux, &w, &proxy),
        vec!["--disable-blink-features=AutomationControlled --ignore-certificate-errors --enable-features=SharedArrayBuffer --enable-unsafe-webgpu"]
    );
    assert_eq!(
        browser_args(Platform::MacOs, &w, &proxy),
        vec!["--ignore-certificate-errors", "--enable-features=SharedArrayBuffer", "--enable-unsafe-webgpu"]
    );
    let plain = window(None, "https://a/", "web");
    assert!(browser_args(Platform::MacOs, &plain, &None).is_empty());
    assert_eq!(
        browser_args(Platform::Linux, &plain, &None),
        vec!["--disable-blink-features=AutomationControlled"]
    );
}

#[test]
fn proxy_url_parsing() {
    assert!(parse_proxy_url("").is_none());
    assert!(parse_proxy_url("not a url").is_none());
    let p = parse_proxy_url("http://proxy.local:8080").unwrap();
    assert_eq!(p.port, Some(8080));
    assert_eq!(p.host.as_deref(), Some("proxy.local"));
}

#[test]
fn titles_and_names() {
    let product = Some("Camera".to_string());
    assert_eq!(window_title(Platform::MacOs, &None, &product), "");
    assert_eq!(window_title(Platform::Linux, &None, &product), "Camera");
    assert_eq!(window_title(Platform::Windows, &None, &None), "");
    assert_eq!(window_title(Platform::MacOs, &Some("T".to_string()), &product), "T");
    assert_eq!(data_dir_name(&product), "Camera");
    assert_eq!(data_dir_name(&None), "pake");
    let mut u = web("data:text/plain,x");
    assert_eq!(popup_title(&u), "data:text/plain,x");
    u.host = Some("example.com".to_string());
    assert_eq!(popup_title(&u), "example.com");
}

#[test]
fn download_names() {
    assert_eq!(download_file_name(Some("a.pdf".to_string()), Some("b.pdf".to_string())), "a.pdf");
    assert_eq!(download_file_name(Some(String::new()), Some("b.pdf".to_string())), "b.pdf");
    assert_eq!(download_file_name(None, Some(String::new())), "download");
    assert_eq!(download_file_name(None, None), "download");
}
