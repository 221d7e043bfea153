//! Decisions taken before a window is built: which URL it loads, which
//! label it gets, which configuration it uses, and the per-window state
//! (popup and route-instance counters, round-robin over route templates).
use vstd::prelude::*;

use crate::config::{
    first_index, is_first, lemma_first_index_absent, lemma_first_index_found,
    lemma_first_index_props, unknown_label_error, unknown_label_message, PakeConfig, WindowConfig,
};
use crate::text::{decimal, push_decimal, str_eq};
use crate::web_url::{parse_url, parse_view, url_parse, UrlParts, WebUrl};

verus! {

/// What a window loads: an external URL, or a path served by the app.
#[derive(Clone, Debug)]
pub enum WebviewTarget {
    External(WebUrl),
    App(String),
}

/// The view of a `WebviewTarget`.
pub enum TargetView {
    External(UrlParts),
    App(Seq<char>),
}

impl View for WebviewTarget {
    type V = TargetView;

    open spec fn view(&self) -> TargetView {
        match self {
            WebviewTarget::External(u) => TargetView::External(u@),
            WebviewTarget::App(p) => TargetView::App(p@),
        }
    }
}

/// The view of a target result.
pub open spec fn target_view(r: Result<WebviewTarget, String>) -> Result<TargetView, Seq<char>> {
    match r {
        Ok(t) => Ok(t@),
        Err(e) => Err(e@),
    }
}

/// The error for a `web` URL that does not parse.
pub open spec fn invalid_web_url_message(url: Seq<char>, error: Seq<char>) -> Seq<char> {
    "Invalid 'web' url '"@ + url + "' in pake.json: "@ + error
}

/// The error for an unknown `url_type`.
pub open spec fn bad_url_type_message(url_type: Seq<char>) -> Seq<char> {
    "url_type must be 'web' or 'local', got '"@ + url_type + "'"@
}

/// The target of a `web` window whose URL `url` parsed to `parsed`:
/// `http` and `https` URLs are loaded as they are, any other scheme
/// names a path of the app.
pub open spec fn target_from_parse(url: Seq<char>, parsed: Result<UrlParts, Seq<char>>) -> Result<
    TargetView,
    Seq<char>,
> {
    match parsed {
        Ok(p) => if p.0 == "http"@ || p.0 == "https"@ {
            Ok(TargetView::External(p))
        } else {
            Ok(TargetView::App(p.3))
        },
        Err(e) => Err(invalid_web_url_message(url, e)),
    }
}

/// The target of a window configuration.
pub open spec fn webview_target(w: WindowConfig) -> Result<TargetView, Seq<char>> {
    if w.url_type@ == "web"@ {
        target_from_parse(w.url@, url_parse(w.url@))
    } else if w.url_type@ == "local"@ {
        Ok(TargetView::App(w.url@))
    } else {
        Err(bad_url_type_message(w.url_type@))
    }
}

/// The port a proxy is reached on: the given one, else the default of
/// `http` (80) or `socks5` (1080).
pub open spec fn proxy_port(scheme: Seq<char>, port: Option<u16>) -> Option<u16> {
    match port {
        Some(p) => Some(p),
        None => if scheme == "http"@ {
            Some(80)
        } else if scheme == "socks5"@ {
            Some(1080)
        } else {
            None
        },
    }
}

/// The browser argument that routes traffic through the proxy at `u`:
/// only `http` and `socks5` proxies with a host get one.
pub open spec fn proxy_browser_arg(u: UrlParts) -> Option<Seq<char>> {
    match u.1 {
        None => None,
        Some(host) => match proxy_port(u.0, u.2) {
            None => None,
            Some(port) => if u.0 == "http"@ || u.0 == "socks5"@ {
                Some("--proxy-server="@ + u.0 + "://"@ + host + ":"@ + decimal(port as nat))
            } else {
                None
            },
        },
    }
}

/// The characters of an optional string.
pub open spec fn opt_string_view(o: Option<String>) -> Option<Seq<char>> {
    match o {
        Some(s) => Some(s@),
        None => None,
    }
}

/// The browser argument for a proxy URL, when the proxy is `http` or
/// `socks5` and has a host.
pub fn build_proxy_browser_arg(url: &WebUrl) -> (r: Option<String>)
    ensures
        opt_string_view(r) == proxy_browser_arg(url@),
{
    let host = match &url.host {
        Some(h) => h.as_str(),
        None => return None,
    };
    let scheme = url.scheme.as_str();
    let port: u16 = match url.port {
        Some(p) => p,
        None => if str_eq(scheme, "http") {
            80
        } else if str_eq(scheme, "socks5") {
            1080
        } else {
            return None;
        },
    };
    if str_eq(scheme, "http") || str_eq(scheme, "socks5") {
        let mut s = String::new();
        s.append("--proxy-server=");
        s.append(scheme);
        s.append("://");
        s.append(host);
        s.append(":");
        push_decimal(&mut s, port as u32);
        assert(s@ =~= "--proxy-server="@ + scheme@ + "://"@ + host@ + ":"@ + decimal(port as nat));
        Some(s)
    } else {
        None
    }
}

/// The target of a `web` window whose URL `url` parsed to `parsed`.
pub fn webview_target_from_parse(url: &str, parsed: Result<WebUrl, String>) -> (r: Result<
    WebviewTarget,
    String,
>)
    ensures
        target_view(r) == target_from_parse(url@, parse_view(parsed)),
{
    match parsed {
        Ok(u) => {
            if str_eq(u.scheme.as_str(), "http") || str_eq(u.scheme.as_str(), "https") {
                Ok(WebviewTarget::External(u))
            } else {
                let path = u.path;
                Ok(WebviewTarget::App(path))
            }
        },
        Err(e) => {
            let mut s = String::new();
            s.append("Invalid 'web' url '");
            s.append(url);
            s.append("' in pake.json: ");
            s.append(e.as_str());
            assert(s@ =~= invalid_web_url_message(url@, e@));
            Err(s)
        },
    }
}

/// What a window configuration loads: a `web` URL (parsed), or a `local`
/// path of the app.
pub fn webview_url_for_config(window_config: &WindowConfig) -> (r: Result<WebviewTarget, String>)
    ensures
        target_view(r) == webview_target(*window_config),
{
    let url_type = window_config.url_type.as_str();
    if str_eq(url_type, "web") {
        let parsed = parse_url(window_config.url.as_str());
        webview_target_from_parse(window_config.url.as_str(), parsed)
    } else if str_eq(url_type, "local") {
        Ok(WebviewTarget::App(window_config.url.clone()))
    } else {
        let mut s = String::new();
        s.append("url_type must be 'web' or 'local', got '");
        s.append(url_type);
        s.append("'");
        assert(s@ =~= bad_url_type_message(url_type@));
        Err(s)
    }
}

/// The label of the `n`th instance of a route template labelled `t`.
pub open spec fn instance_label(t: Seq<char>, n: nat) -> Seq<char> {
    t + "-"@ + decimal(n)
}

/// The label of the `n`th popup window.
pub open spec fn popup_label(n: nat) -> Seq<char> {
    "pake-"@ + decimal(n)
}

/// The counter that follows `n`, wrapping at `u32::MAX`.
pub open spec fn next_count(n: u32) -> u32 {
    if n == u32::MAX {
        0
    } else {
        (n + 1) as u32
    }
}

/// The window state of a running application: its configuration, the
/// number of popups opened, the round-robin position over the route
/// templates, and how many instances of each route template were opened.
pub struct MultiWindowState {
    pub pake_config: PakeConfig,
    next_popup_index: u32,
    next_route_index: u32,
    route_instance_counters: Vec<(String, u32)>,
}

impl MultiWindowState {
    /// The application configuration.
    pub closed spec fn config(&self) -> PakeConfig {
        self.pake_config
    }

    /// How many popup labels were handed out.
    pub closed spec fn popup_count(&self) -> u32 {
        self.next_popup_index
    }

    /// The round-robin position over the route templates.
    pub closed spec fn route_count(&self) -> u32 {
        self.next_route_index
    }

    /// Counter entry `i` belongs to `key`.
    closed spec fn keyed(&self, key: Seq<char>) -> spec_fn(int) -> bool {
        |i: int| self.route_instance_counters@[i].0@ == key
    }

    /// How many instances of the route template labelled `key` were opened.
    pub closed spec fn instance_count(&self, key: Seq<char>) -> u32 {
        match first_index(self.route_instance_counters@.len() as int, self.keyed(key)) {
            Some(i) => self.route_instance_counters@[i].1,
            None => 0,
        }
    }

    /// How many popup labels were handed out.
    pub fn popups_opened(&self) -> (r: u32)
        ensures
            r == self.popup_count(),
    {
        self.next_popup_index
    }

    /// The round-robin position over the route templates.
    pub fn route_position(&self) -> (r: u32)
        ensures
            r == self.route_count(),
    {
        self.next_route_index
    }

    /// How many instances of the route template labelled `key` were opened.
    pub fn instances_opened(&self, key: &str) -> (r: u32)
        ensures
            r == self.instance_count(key@),
    {
        let n = self.route_instance_counters.len();
        let ghost p = self.keyed(key@);
        let mut i: usize = 0;
        while i < n
            invariant
                n == self.route_instance_counters@.len(),
                p == self.keyed(key@),
                i <= n,
                forall|j: int| 0 <= j < i ==> !#[trigger] p(j),
            decreases n - i,
        {
            if str_eq(self.route_instance_counters[i].0.as_str(), key) {
                proof {
                    lemma_first_index_found(n as int, p, i as int);
                }
                return self.route_instance_counters[i].1;
            }
            i = i + 1;
        }
        proof {
            lemma_first_index_absent(n as int, p);
        }
        0
    }

    /// A fresh state: no popup, no route instance, round robin at the start.
    pub fn new(pake_config: PakeConfig) -> (r: MultiWindowState)
        ensures
            r.config() == pake_config,
            r.popup_count() == 0,
            r.route_count() == 0,
            forall|k: Seq<char>| #[trigger] r.instance_count(k) == 0,
    {
        let r = MultiWindowState {
            pake_config,
            next_popup_index: 0,
            next_route_index: 0,
            route_instance_counters: Vec::new(),
        };
        assert forall|k: Seq<char>| #[trigger] r.instance_count(k) == 0 by {
            lemma_first_index_absent(0, r.keyed(k));
        }
        r
    }

    /// The label of the next popup window, `pake-N` with `N` counting from 1.
    pub fn next_popup_label(&mut self) -> (r: String)
        requires
            old(self).popup_count() < u32::MAX,
        ensures
            final(self).popup_count() == old(self).popup_count() + 1,
            final(self).route_count() == old(self).route_count(),
            final(self).config() == old(self).config(),
            forall|k: Seq<char>| #[trigger]
                final(self).instance_count(k) == old(self).instance_count(k),
            r@ == popup_label(final(self).popup_count() as nat),
    {
        let index = self.next_popup_index + 1;
        self.next_popup_index = index;
        let mut s = String::new();
        s.append("pake-");
        push_decimal(&mut s, index);
        assert(s@ =~= popup_label(index as nat));
        s
    }

    /// The label of the next instance of the route template labelled
    /// `template_label`: the label, a dash, and how many instances of it
    /// were opened so far, this one included.
    pub fn next_route_instance_label(&mut self, template_label: &str) -> (r: String)
        requires
            old(self).instance_count(template_label@) < u32::MAX,
        ensures
            final(self).instance_count(template_label@) == old(self).instance_count(
                template_label@,
            ) + 1,
            forall|k: Seq<char>|
                k != template_label@ ==> #[trigger] final(self).instance_count(k)
                    == old(self).instance_count(k),
            final(self).popup_count() == old(self).popup_count(),
            final(self).route_count() == old(self).route_count(),
            final(self).config() == old(self).config(),
            r@ == instance_label(
                template_label@,
                final(self).instance_count(template_label@) as nat,
            ),
    {
        let count = self.bump_instance_count(template_label);
        let mut s = String::new();
        s.append(template_label);
        s.append("-");
        push_decimal(&mut s, count);
        assert(s@ =~= instance_label(template_label@, count as nat));
        s
    }

    /// Adds one to the instance counter of `key` and returns its new value.
    fn bump_instance_count(&mut self, key: &str) -> (c: u32)
        requires
            old(self).instance_count(key@) < u32::MAX,
        ensures
            c == old(self).instance_count(key@) + 1,
            final(self).instance_count(key@) == c,
            forall|k: Seq<char>|
                k != key@ ==> #[trigger] final(self).instance_count(k) == old(
                    self,
                ).instance_count(k),
            final(self).popup_count() == old(self).popup_count(),
            final(self).route_count() == old(self).route_count(),
            final(self).config() == old(self).config(),
    {
        let ghost old_self = *self;
        let n = self.route_instance_counters.len();
        let ghost p = self.keyed(key@);
        let mut i: usize = 0;
        while i < n
            invariant
                n == self.route_instance_counters@.len(),
                *self == old_self,
                old_self == *old(self),
                old_self.instance_count(key@) < u32::MAX,
                p == self.keyed(key@),
                i <= n,
                forall|j: int| 0 <= j < i ==> !#[trigger] p(j),
            decreases n - i,
        {
            if str_eq(self.route_instance_counters[i].0.as_str(), key) {
                proof {
                    lemma_first_index_found(n as int, p, i as int);
                }
                let c = self.route_instance_counters[i].1 + 1;
                let k = self.route_instance_counters[i].0.clone();
                self.route_instance_counters.set(i, (k, c));
                proof {
                    assert forall|j: int| 0 <= j < n implies #[trigger] self.keyed(key@)(j) == p(
                        j,
                    ) by {}
                    lemma_first_index_found(n as int, self.keyed(key@), i as int);
                    assert forall|k2: Seq<char>| k2 != key@ implies #[trigger] self.instance_count(
                        k2,
                    ) == old_self.instance_count(k2) by {
                        lemma_same_first_index(n as int, old_self.keyed(k2), self.keyed(k2));
                        lemma_first_index_props(n as int, old_self.keyed(k2));
                    }
                }
                return c;
            }
            i = i + 1;
        }
        proof {
            lemma_first_index_absent(n as int, p);
        }
        let k = crate::text::owned(key);
        self.route_instance_counters.push((k, 1));
        proof {
            assert forall|j: int| 0 <= j < n implies !#[trigger] self.keyed(key@)(j) by {
                assert(!p(j));
            }
            assert(is_first(n as int + 1, self.keyed(key@), n as int));
            lemma_first_index_found(n as int + 1, self.keyed(key@), n as int);
            assert forall|k2: Seq<char>| k2 != key@ implies #[trigger] self.instance_count(k2)
                == old_self.instance_count(k2) by {
                lemma_first_index_props(n as int, old_self.keyed(k2));
                lemma_first_index_props(n as int + 1, self.keyed(k2));
                match first_index(n as int, old_self.keyed(k2)) {
                    Some(j) => {
                        assert forall|m: int| 0 <= m < j implies !#[trigger] self.keyed(k2)(m) by {
                            assert(!old_self.keyed(k2)(m));
                        }
                        assert(is_first(n as int + 1, self.keyed(k2), j));
                        lemma_first_index_found(n as int + 1, self.keyed(k2), j);
                    },
                    None => {
                        assert forall|j: int| 0 <= j < n + 1 implies !#[trigger] self.keyed(k2)(
                            j,
                        ) by {
                            if j < n {
                                assert(!old_self.keyed(k2)(j));
                            }
                        }
                        lemma_first_index_absent(n as int + 1, self.keyed(k2));
                    },
                }
            }
        }
        1
    }
}

/// A window about to be built: its label, its configuration, what it
/// loads, and whether it is shown at once.
#[derive(Clone, Debug)]
pub struct WindowPlan {
    pub label: String,
    pub window: WindowConfig,
    pub url: WebviewTarget,
    pub visible: bool,
}

/// The view of a plan result.
pub open spec fn plan_view(r: Result<WindowPlan, String>) -> Result<
    (Seq<char>, WindowConfig, TargetView, bool),
    Seq<char>,
> {
    match r {
        Ok(p) => Ok((p.label@, p.window, p.url@, p.visible)),
        Err(e) => Err(e@),
    }
}

/// The plan for a hidden window labelled `label` built from `w`; it fails
/// as `w`'s target does.
pub open spec fn planned(label: Seq<char>, w: WindowConfig) -> Result<
    (Seq<char>, WindowConfig, TargetView, bool),
    Seq<char>,
> {
    match webview_target(w) {
        Ok(t) => Ok((label, w, t, false)),
        Err(e) => Err(e),
    }
}

/// The error for a configuration without windows.
pub open spec fn no_window_message() -> Seq<char> {
    "pake.json must define at least one window configuration"@
}

fn no_window_error() -> (r: String)
    ensures
        r@ == no_window_message(),
{
    crate::text::owned("pake.json must define at least one window configuration")
}

/// Plans a hidden window labelled `label` from `window_config`.
pub fn build_window_with_config(label: &str, window_config: &WindowConfig) -> (r: Result<
    WindowPlan,
    String,
>)
    ensures
        plan_view(r) == planned(label@, *window_config),
{
    let url = webview_url_for_config(window_config)?;
    Ok(
        WindowPlan {
            label: crate::text::owned(label),
            window: window_config.duplicate(),
            url,
            visible: false,
        },
    )
}

/// Plans the main window: the first window of the configuration, under
/// the main label.
pub fn set_window(config: &PakeConfig) -> (r: Result<WindowPlan, String>)
    ensures
        config.windows@.len() == 0 ==> plan_view(r) == Err::<
            (Seq<char>, WindowConfig, TargetView, bool),
            Seq<char>,
        >(no_window_message()),
        config.windows@.len() > 0 ==> plan_view(r) == planned(
            config.main_label(),
            config.windows@[0],
        ),
{
    let main_label = config.main_window_label();
    if config.windows.len() == 0 {
        return Err(no_window_error());
    }
    build_window_with_config(main_label, &config.windows[0])
}

/// `p` holds somewhere in `0..n`, so `first_index` finds an index.
proof fn lemma_first_index_exists(n: int, p: spec_fn(int) -> bool, j: int)
    requires
        0 <= j < n,
        p(j),
    ensures
        first_index(n, p) is Some,
{
    lemma_first_index_props(n, p);
}

/// The label of a route template names a window of the configuration.
pub proof fn lemma_template_label_found(config: PakeConfig, k: int)
    requires
        0 <= k < config.route_templates().len(),
    ensures
        config.lookup_index(config.route_templates()[k].window_label()) is Some,
        config.route_templates()[k].window_label() != config.main_label(),
{
    let pred = PakeConfig::not_labelled(config.main_label());
    let t = config.route_templates()[k];
    config.windows@.lemma_filter_pred(pred, k);
    assert(config.windows@.filter(pred).contains(t));
    config.windows@.lemma_filter_contains_rev(pred, t);
    let j = choose|j: int| 0 <= j < config.windows@.len() && config.windows@[j] == t;
    assert(config.labelled(t.window_label())(j));
    lemma_first_index_exists(config.windows@.len() as int, config.labelled(t.window_label()), j);
}

impl MultiWindowState {
    /// Copies of the route templates, in order.
    pub fn route_templates(&self) -> (r: Vec<WindowConfig>)
        ensures
            r@ == self.config().route_templates(),
    {
        let refs = self.pake_config.route_window_templates();
        let n = refs.len();
        let mut r: Vec<WindowConfig> = Vec::new();
        let mut i: usize = 0;
        while i < n
            invariant
                n == refs@.len(),
                i <= n,
                r@ == refs@.map_values(|w: &WindowConfig| *w).take(i as int),
            decreases n - i,
        {
            r.push(refs[i].duplicate());
            assert(r@ =~= refs@.map_values(|w: &WindowConfig| *w).take(i + 1));
            i = i + 1;
        }
        assert(refs@.map_values(|w: &WindowConfig| *w).take(n as int) =~= refs@.map_values(
            |w: &WindowConfig| *w,
        ));
        r
    }

    /// The next route template in round-robin order, if there is any.
    pub fn next_route_template(&mut self) -> (r: Option<WindowConfig>)
        ensures
            old(self).config().route_templates().len() == 0 ==> r is None && *final(self) == *old(
                self,
            ),
            old(self).config().route_templates().len() > 0 ==> {
                &&& r == Some(
                    old(self).config().route_templates()[old(self).route_count() as int
                        % old(self).config().route_templates().len() as int],
                )
                &&& final(self).route_count() == next_count(old(self).route_count())
                &&& final(self).popup_count() == old(self).popup_count()
                &&& final(self).config() == old(self).config()
                &&& forall|k: Seq<char>| #[trigger]
                    final(self).instance_count(k) == old(self).instance_count(k)
            },
    {
        let templates = self.route_templates();
        if templates.len() == 0 {
            return None;
        }
        let start = self.next_route_index;
        self.next_route_index = if start == u32::MAX {
            0
        } else {
            start + 1
        };
        let index = start as usize % templates.len();
        Some(templates[index].duplicate())
    }

    /// The label a route template is known by.
    pub fn route_template_label(template: &WindowConfig) -> (r: &str)
        ensures
            r@ == template.window_label(),
    {
        template.label_str()
    }

    /// Plans the window `label` resolves to (when no window with that label
    /// is open yet).
    pub fn open_window_by_label(&self, label: &str) -> (r: Result<WindowPlan, String>)
        ensures
            match self.config().resolve_index(label@) {
                Some(i) => plan_view(r) == planned(label@, self.config().windows@[i]),
                None => plan_view(r) == Err::<
                    (Seq<char>, WindowConfig, TargetView, bool),
                    Seq<char>,
                >(unknown_label_message(label@)),
            },
    {
        let window_config = self.pake_config.resolve_window_config(label)?;
        build_window_with_config(label, window_config)
    }

    /// Plans a new instance of the route template labelled `template_label`:
    /// the template's configuration under the next instance label.
    pub fn open_route_template_window(&mut self, template_label: &str) -> (r: Result<
        WindowPlan,
        String,
    >)
        requires
            old(self).config().lookup_index(template_label@) is Some ==> old(self).instance_count(
                template_label@,
            ) < u32::MAX,
        ensures
            match old(self).config().lookup_index(template_label@) {
                None => {
                    &&& plan_view(r) == Err::<
                        (Seq<char>, WindowConfig, TargetView, bool),
                        Seq<char>,
                    >(unknown_label_message(template_label@))
                    &&& *final(self) == *old(self)
                },
                Some(i) => {
                    &&& final(self).instance_count(template_label@) == old(self).instance_count(
                        template_label@,
                    ) + 1
                    &&& forall|k: Seq<char>|
                        k != template_label@ ==> #[trigger] final(self).instance_count(k) == old(
                            self,
                        ).instance_count(k)
                    &&& final(self).popup_count() == old(self).popup_count()
                    &&& final(self).route_count() == old(self).route_count()
                    &&& final(self).config() == old(self).config()
                    &&& plan_view(r) == planned(
                        instance_label(
                            template_label@,
                            final(self).instance_count(template_label@) as nat,
                        ),
                        old(self).config().windows@[i],
                    )
                },
            },
    {
        let window_config = match self.pake_config.window_config_by_label(template_label) {
            Ok(w) => w.duplicate(),
            Err(e) => return Err(e),
        };
        let instance_label = self.next_route_instance_label(template_label);
        build_window_with_config(&instance_label, &window_config)
    }

    /// Plans an additional window: the next route template in round-robin
    /// order when there is one, else a popup with the first window's
    /// configuration.
    pub fn open_additional_window(&mut self) -> (r: Result<WindowPlan, String>)
        requires
            old(self).config().route_templates().len() > 0 ==> old(self).instance_count(
                old(self).config().route_templates()[old(self).route_count() as int
                    % old(self).config().route_templates().len() as int].window_label(),
            ) < u32::MAX,
            old(self).config().route_templates().len() == 0 && old(self).config().windows@.len()
                > 0 ==> old(self).popup_count() < u32::MAX,
        ensures
            old(self).config().route_templates().len() > 0 ==> {
                let ts = old(self).config().route_templates();
                let t = ts[old(self).route_count() as int % ts.len() as int].window_label();
                &&& final(self).route_count() == next_count(old(self).route_count())
                &&& final(self).popup_count() == old(self).popup_count()
                &&& final(self).config() == old(self).config()
                &&& final(self).instance_count(t) == old(self).instance_count(t) + 1
                &&& forall|k: Seq<char>|
                    k != t ==> #[trigger] final(self).instance_count(k) == old(
                        self,
                    ).instance_count(k)
                &&& old(self).config().lookup_index(t) matches Some(i) && plan_view(r) == planned(
                    instance_label(t, final(self).instance_count(t) as nat),
                    old(self).config().windows@[i],
                )
            },
            old(self).config().route_templates().len() == 0 && old(self).config().windows@.len()
                == 0 ==> {
                &&& plan_view(r) == Err::<
                    (Seq<char>, WindowConfig, TargetView, bool),
                    Seq<char>,
                >(no_window_message())
                &&& *final(self) == *old(self)
            },
            old(self).config().route_templates().len() == 0 && old(self).config().windows@.len()
                > 0 ==> {
                &&& final(self).popup_count() == old(self).popup_count() + 1
                &&& final(self).route_count() == old(self).route_count()
                &&& final(self).config() == old(self).config()
                &&& forall|k: Seq<char>| #[trigger]
                    final(self).instance_count(k) == old(self).instance_count(k)
                &&& plan_view(r) == planned(
                    popup_label(final(self).popup_count() as nat),
                    old(self).config().windows@[0],
                )
            },
    {
        if self.pake_config.has_route_templates() {
            let ghost k = self.route_count() as int % self.config().route_templates().len() as int;
            if let Some(template) = self.next_route_template() {
                proof {
                    lemma_template_label_found(self.config(), k);
                }
                let label = Self::route_template_label(&template);
                return self.open_route_template_window(label);
            }
        }
        if self.pake_config.windows.len() == 0 {
            return Err(no_window_error());
        }
        let window_config = self.pake_config.windows[0].duplicate();
        let label = self.next_popup_label();
        build_window_with_config(&label, &window_config)
    }

    /// Plans a popup requested by a page: the next popup label, the first
    /// window's configuration of `config`, shown at once and loading `target`.
    pub fn open_requested_window(&mut self, config: &PakeConfig, target: WebUrl) -> (r: Result<
        WindowPlan,
        String,
    >)
        requires
            old(self).popup_count() < u32::MAX,
        ensures
            final(self).popup_count() == old(self).popup_count() + 1,
            final(self).route_count() == old(self).route_count(),
            final(self).config() == old(self).config(),
            forall|k: Seq<char>| #[trigger]
                final(self).instance_count(k) == old(self).instance_count(k),
            config.windows@.len() == 0 ==> plan_view(r) == Err::<
                (Seq<char>, WindowConfig, TargetView, bool),
                Seq<char>,
            >(no_window_message()),
            config.windows@.len() > 0 ==> plan_view(r) == Ok::<
                (Seq<char>, WindowConfig, TargetView, bool),
                Seq<char>,
            >(
                (
                    popup_label(final(self).popup_count() as nat),
                    config.windows@[0],
                    TargetView::External(target@),
                    true,
                ),
            ),
    {
        let label = self.next_popup_label();
        if config.windows.len() == 0 {
            return Err(no_window_error());
        }
        let window = config.windows[0].duplicate();
        Ok(WindowPlan { label, window, url: WebviewTarget::External(target), visible: true })
    }
}

/// Two predicates that agree on `0..n` have the same first index.
proof fn lemma_same_first_index(n: int, p: spec_fn(int) -> bool, q: spec_fn(int) -> bool)
    requires
        forall|j: int| #![trigger p(j)] #![trigger q(j)] 0 <= j < n ==> p(j) == q(j),
    ensures
        first_index(n, p) == first_index(n, q),
{
    lemma_first_index_props(n, p);
    match first_index(n, p) {
        Some(i) => {
            assert(is_first(n, q, i));
            lemma_first_index_found(n, q, i);
        },
        None => {
            lemma_first_index_absent(n, q);
        },
    }
}

} // verus!
