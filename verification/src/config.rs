//! The application configuration (`pake.json`): its windows, their labels,
//! and the route templates from which further windows are opened.
use vstd::prelude::*;

use crate::platform::{Platform, PlatformSpecific};
use crate::text::{has_prefix, is_prefix, str_eq};
use vstd::string::StrSliceExecFns;

verus! {

/// The label of the main window, and of every window whose label is
/// absent or empty.
pub const MAIN_WINDOW_LABEL: &'static str = "pake";

/// The zoom level (percent) of a window that does not set one.
pub fn default_zoom() -> (r: u32)
    ensures
        r == 100,
{
    100
}

/// One window of the configuration. Sizes are kept as the bit patterns of
/// their IEEE-754 `f64` values (`f64::to_bits`).
#[derive(Clone, Debug)]
pub struct WindowConfig {
    pub url: String,
    pub hide_title_bar: bool,
    pub fullscreen: bool,
    pub maximize: bool,
    pub width_bits: u64,
    pub height_bits: u64,
    pub resizable: bool,
    pub url_type: String,
    pub always_on_top: bool,
    pub dark_mode: bool,
    pub disabled_web_shortcuts: bool,
    pub activation_shortcut: String,
    pub hide_on_close: bool,
    pub incognito: bool,
    pub title: Option<String>,
    pub enable_wasm: bool,
    pub enable_drag_drop: bool,
    pub new_window: bool,
    pub label: Option<String>,
    pub start_to_tray: bool,
    pub force_internal_navigation: bool,
    pub internal_url_regex: String,
    pub enable_find: bool,
    pub zoom: u32,
    pub min_width_bits: u64,
    pub min_height_bits: u64,
    pub ignore_certificate_errors: bool,
}

pub type UserAgent = PlatformSpecific<String>;

pub type FunctionON = PlatformSpecific<bool>;

/// The whole application configuration.
#[derive(Clone, Debug)]
pub struct PakeConfig {
    pub windows: Vec<WindowConfig>,
    pub user_agent: UserAgent,
    pub system_tray: FunctionON,
    pub system_tray_path: String,
    pub proxy_url: String,
    pub multi_instance: bool,
    pub multi_window: bool,
}

/// The first `i` in `0..n` with `p(i)`, if any.
pub open spec fn is_first(n: int, p: spec_fn(int) -> bool, i: int) -> bool {
    &&& 0 <= i < n
    &&& p(i)
    &&& forall|j: int| 0 <= j < i ==> !#[trigger] p(j)
}

/// The least index in `0..n` that satisfies `p`, or `None`.
pub open spec fn first_index(n: int, p: spec_fn(int) -> bool) -> Option<int> {
    if exists|i: int| is_first(n, p, i) {
        Some(choose|i: int| is_first(n, p, i))
    } else {
        None
    }
}

/// `first_index` is the least satisfying index.
pub proof fn lemma_first_index_found(n: int, p: spec_fn(int) -> bool, i: int)
    requires
        is_first(n, p, i),
    ensures
        first_index(n, p) == Some(i),
{
    let k = choose|k: int| is_first(n, p, k);
    assert(is_first(n, p, k));
    if k < i {
        assert(!p(k));
    }
    if i < k {
        assert(!p(i));
    }
}

/// `first_index` is `None` when nothing in range satisfies `p`.
pub proof fn lemma_first_index_absent(n: int, p: spec_fn(int) -> bool)
    requires
        forall|j: int| 0 <= j < n ==> !#[trigger] p(j),
    ensures
        first_index(n, p) is None,
{
}

/// What `first_index` returns satisfies `p`, and nothing before it does.
pub proof fn lemma_first_index_props(n: int, p: spec_fn(int) -> bool)
    ensures
        first_index(n, p) matches Some(i) ==> is_first(n, p, i),
        first_index(n, p) is None ==> forall|j: int| 0 <= j < n ==> !#[trigger] p(j),
{
    if first_index(n, p) is None {
        assert forall|j: int| 0 <= j < n implies !#[trigger] p(j) by {
            if p(j) {
                let q = |k: int| 0 <= k <= j && p(k);
                let m = least_index(j, q);
                assert forall|k: int| 0 <= k < m implies !#[trigger] p(k) by {
                    assert(!q(k));
                }
                assert(is_first(n, p, m));
            }
        }
    }
}

/// The least `m` in `0..=j` with `q(m)`, given that `q(j)` holds.
proof fn least_index(j: int, q: spec_fn(int) -> bool) -> (m: int)
    requires
        0 <= j,
        q(j),
    ensures
        0 <= m <= j,
        q(m),
        forall|k: int| 0 <= k < m ==> !#[trigger] q(k),
    decreases j,
{
    if j == 0 {
        0
    } else if exists|k: int| 0 <= k < j && #[trigger] q(k) {
        let k = choose|k: int| 0 <= k < j && #[trigger] q(k);
        let q2 = |x: int| 0 <= x <= k && q(x);
        let m = least_index(k, q2);
        assert forall|x: int| 0 <= x < m implies !#[trigger] q(x) by {
            assert(!q2(x));
        }
        m
    } else {
        j
    }
}

/// A label that is a route instance of `template`: the template itself,
/// or the template, a dash and at least one more character.
pub open spec fn is_instance_label(label: Seq<char>, template: Seq<char>) -> bool {
    ||| label == template
    ||| {
        &&& label.len() >= template.len() + 2
        &&& is_prefix(template, label)
        &&& label[template.len() as int] == '-'
    }
}

/// The error for a label that names no window.
pub open spec fn unknown_label_message(label: Seq<char>) -> Seq<char> {
    "Unknown window label '"@ + label + "'"@
}

/// The error for a label that two windows share.
pub open spec fn duplicate_label_message(label: Seq<char>) -> Seq<char> {
    "Duplicate window label '"@ + label + "' in pake.json"@
}

/// The `i`th label of `labels` already occurs before `i`.
pub open spec fn repeats_earlier(labels: Seq<Seq<char>>, i: int) -> bool {
    exists|j: int| 0 <= j < i && labels[j] == labels[i]
}

/// The index of the first label that repeats an earlier one.
pub open spec fn first_repeat(labels: Seq<Seq<char>>) -> Option<int> {
    first_index(labels.len() as int, |i: int| repeats_earlier(labels, i))
}

impl WindowConfig {
    /// The label the configuration gives, when it is present and non-empty.
    pub open spec fn given_label(&self) -> Option<Seq<char>> {
        match self.label {
            Some(l) => if l@.len() > 0 {
                Some(l@)
            } else {
                None
            },
            None => None,
        }
    }

    /// The label the window is known by.
    pub open spec fn window_label(&self) -> Seq<char> {
        match self.given_label() {
            Some(l) => l,
            None => MAIN_WINDOW_LABEL@,
        }
    }

    /// The configured label when it is present and non-empty.
    pub fn given_label_str(&self) -> (r: Option<&str>)
        ensures
            opt_str_view(r) == self.given_label(),
    {
        match &self.label {
            Some(l) => {
                let s = l.as_str();
                if s.is_empty() {
                    None
                } else {
                    Some(s)
                }
            },
            None => None,
        }
    }

    /// The label the window is known by.
    pub fn label_str(&self) -> (r: &str)
        ensures
            r@ == self.window_label(),
    {
        match self.given_label_str() {
            Some(s) => s,
            None => MAIN_WINDOW_LABEL,
        }
    }

    /// A copy of this window configuration.
    pub fn duplicate(&self) -> (r: WindowConfig)
        ensures
            r == *self,
    {
        WindowConfig {
            url: self.url.clone(),
            hide_title_bar: self.hide_title_bar,
            fullscreen: self.fullscreen,
            maximize: self.maximize,
            width_bits: self.width_bits,
            height_bits: self.height_bits,
            resizable: self.resizable,
            url_type: self.url_type.clone(),
            always_on_top: self.always_on_top,
            dark_mode: self.dark_mode,
            disabled_web_shortcuts: self.disabled_web_shortcuts,
            activation_shortcut: self.activation_shortcut.clone(),
            hide_on_close: self.hide_on_close,
            incognito: self.incognito,
            title: clone_opt_string(&self.title),
            enable_wasm: self.enable_wasm,
            enable_drag_drop: self.enable_drag_drop,
            new_window: self.new_window,
            label: clone_opt_string(&self.label),
            start_to_tray: self.start_to_tray,
            force_internal_navigation: self.force_internal_navigation,
            internal_url_regex: self.internal_url_regex.clone(),
            enable_find: self.enable_find,
            zoom: self.zoom,
            min_width_bits: self.min_width_bits,
            min_height_bits: self.min_height_bits,
            ignore_certificate_errors: self.ignore_certificate_errors,
        }
    }
}

/// The characters of an optional string slice.
pub open spec fn opt_str_view(o: Option<&str>) -> Option<Seq<char>> {
    match o {
        Some(s) => Some(s@),
        None => None,
    }
}

/// A copy of an optional string.
pub fn clone_opt_string(o: &Option<String>) -> (r: Option<String>)
    ensures
        r == *o,
{
    match o {
        Some(s) => Some(s.clone()),
        None => None,
    }
}

/// The error for a label that names no window.
pub fn unknown_label_error(label: &str) -> (r: String)
    ensures
        r@ == unknown_label_message(label@),
{
    let mut s = String::new();
    s.append("Unknown window label '");
    s.append(label);
    s.append("'");
    assert(s@ =~= unknown_label_message(label@));
    s
}

fn duplicate_label_error(label: &str) -> (r: String)
    ensures
        r@ == duplicate_label_message(label@),
{
    let mut s = String::new();
    s.append("Duplicate window label '");
    s.append(label);
    s.append("' in pake.json");
    assert(s@ =~= duplicate_label_message(label@));
    s
}

/// `label` is a route instance of `template`.
pub fn is_instance_of(label: &str, template: &str) -> (r: bool)
    ensures
        r == is_instance_label(label@, template@),
{
    if str_eq(label, template) {
        return true;
    }
    let n = template.unicode_len();
    let m = label.unicode_len();
    if m < 2 || n > m - 2 {
        return false;
    }
    has_prefix(label, template) && label.get_char(n) == '-'
}

/// Filtering one more element of a prefix.
pub proof fn lemma_filter_take_step<A>(s: Seq<A>, pred: spec_fn(A) -> bool, i: int)
    requires
        0 <= i < s.len(),
    ensures
        s.take(i + 1).filter(pred) == (if pred(s[i]) {
            s.take(i).filter(pred).push(s[i])
        } else {
            s.take(i).filter(pred)
        }),
{
    reveal(Seq::filter);
    assert(s.take(i + 1).drop_last() =~= s.take(i));
    assert(s.take(i + 1).last() == s[i]);
}

impl PakeConfig {
    /// The labels of the windows, in order.
    pub open spec fn labels(&self) -> Seq<Seq<char>> {
        self.windows@.map_values(|w: WindowConfig| w.window_label())
    }

    /// The label of the main window: that of the first window, or the
    /// default label when there is no window.
    pub open spec fn main_label(&self) -> Seq<char> {
        if self.windows@.len() > 0 {
            self.windows@[0].window_label()
        } else {
            MAIN_WINDOW_LABEL@
        }
    }

    /// Whether a window is labelled otherwise than `main`.
    pub open spec fn not_labelled(main: Seq<char>) -> spec_fn(WindowConfig) -> bool {
        |w: WindowConfig| w.window_label() != main
    }

    /// The route templates: the windows not labelled as the main window, in order.
    pub open spec fn route_templates(&self) -> Seq<WindowConfig> {
        self.windows@.filter(Self::not_labelled(self.main_label()))
    }

    /// Window `i` is a route template.
    pub open spec fn is_route_template(&self, i: int) -> bool {
        self.windows@[i].window_label() != self.main_label()
    }

    /// Window `i` carries `label`.
    pub open spec fn labelled(&self, label: Seq<char>) -> spec_fn(int) -> bool {
        |i: int| self.windows@[i].window_label() == label
    }

    /// The first window that carries `label`.
    pub open spec fn lookup_index(&self, label: Seq<char>) -> Option<int> {
        first_index(self.windows@.len() as int, self.labelled(label))
    }

    /// Window `i` is a route template with a given label of which `label`
    /// is an instance.
    pub open spec fn instance_of_window(&self, i: int, label: Seq<char>) -> bool {
        &&& self.is_route_template(i)
        &&& match self.windows@[i].given_label() {
            Some(t) => is_instance_label(label, t),
            None => false,
        }
    }

    /// Predicate form of `instance_of_window`.
    pub open spec fn instance_of(&self, label: Seq<char>) -> spec_fn(int) -> bool {
        |i: int| self.instance_of_window(i, label)
    }

    /// `label` names an instance of some route template.
    pub open spec fn is_route_instance(&self, label: Seq<char>) -> bool {
        exists|i: int| 0 <= i < self.windows@.len() && #[trigger] self.instance_of_window(i, label)
    }

    /// The window a label resolves to: the first that carries it, else the
    /// first route template of which it is an instance.
    pub open spec fn resolve_index(&self, label: Seq<char>) -> Option<int> {
        match self.lookup_index(label) {
            Some(i) => Some(i),
            None => first_index(self.windows@.len() as int, self.instance_of(label)),
        }
    }

    /// Whether the system tray is shown on `platform`.
    pub fn show_system_tray(&self, platform: Platform) -> (r: bool)
        ensures
            r == self.system_tray.value_for(platform),
    {
        self.system_tray.copied(platform)
    }

    /// Accepts the configuration when no two windows share a label, and
    /// otherwise names the first label that repeats an earlier one.
    pub fn validate_window_labels(&self) -> (r: Result<(), String>)
        ensures
            match first_repeat(self.labels()) {
                None => r is Ok,
                Some(i) => r matches Err(e) && e@ == duplicate_label_message(self.labels()[i]),
            },
    {
        let n = self.windows.len();
        let ghost labels = self.labels();
        let ghost p = |k: int| repeats_earlier(labels, k);
        let mut i: usize = 0;
        while i < n
            invariant
                n == self.windows@.len(),
                labels == self.labels(),
                p == (|k: int| repeats_earlier(labels, k)),
                i <= n,
                forall|k: int| 0 <= k < i ==> !#[trigger] p(k),
            decreases n - i,
        {
            let li = self.windows[i].label_str();
            let mut j: usize = 0;
            while j < i
                invariant
                    n == self.windows@.len(),
                    labels == self.labels(),
                    p == (|k: int| repeats_earlier(labels, k)),
                    forall|k: int| 0 <= k < i ==> !#[trigger] p(k),
                    i < n,
                    j <= i,
                    li@ == labels[i as int],
                    forall|m: int| 0 <= m < j ==> labels[m] != labels[i as int],
                decreases i - j,
            {
                let lj = self.windows[j].label_str();
                if str_eq(lj, li) {
                    proof {
                        assert(labels[j as int] == labels[i as int]);
                        assert(p(i as int));
                        lemma_first_index_found(labels.len() as int, p, i as int);
                    }
                    return Err(duplicate_label_error(li));
                }
                j = j + 1;
            }
            assert(!p(i as int));
            i = i + 1;
        }
        proof {
            lemma_first_index_absent(labels.len() as int, p);
        }
        Ok(())
    }

    /// The first window labelled `label`.
    pub fn window_config_by_label(&self, label: &str) -> (r: Result<&WindowConfig, String>)
        ensures
            match self.lookup_index(label@) {
                Some(i) => r matches Ok(w) && *w == self.windows@[i],
                None => r matches Err(e) && e@ == unknown_label_message(label@),
            },
    {
        let n = self.windows.len();
        let ghost p = self.labelled(label@);
        let mut i: usize = 0;
        while i < n
            invariant
                n == self.windows@.len(),
                p == self.labelled(label@),
                i <= n,
                forall|k: int| 0 <= k < i ==> !#[trigger] p(k),
            decreases n - i,
        {
            if str_eq(self.windows[i].label_str(), label) {
                proof {
                    lemma_first_index_found(n as int, p, i as int);
                }
                return Ok(&self.windows[i]);
            }
            i = i + 1;
        }
        proof {
            lemma_first_index_absent(n as int, p);
        }
        Err(unknown_label_error(label))
    }

    /// The route templates: every window not labelled as the main window.
    pub fn route_window_templates(&self) -> (r: Vec<&WindowConfig>)
        ensures
            r@.map_values(|w: &WindowConfig| *w) == self.route_templates(),
    {
        let main_label = self.main_window_label();
        let n = self.windows.len();
        let ghost pred = Self::not_labelled(self.main_label());
        let mut r: Vec<&WindowConfig> = Vec::new();
        let mut i: usize = 0;
        while i < n
            invariant
                n == self.windows@.len(),
                main_label@ == self.main_label(),
                pred == Self::not_labelled(self.main_label()),
                i <= n,
                r@.map_values(|w: &WindowConfig| *w) == self.windows@.take(i as int).filter(pred),
            decreases n - i,
        {
            let w = &self.windows[i];
            proof {
                lemma_filter_take_step(self.windows@, pred, i as int);
            }
            if !str_eq(w.label_str(), main_label) {
                r.push(w);
                assert(r@.map_values(|w: &WindowConfig| *w) =~= self.windows@.take(i as int).filter(
                    pred,
                ).push(*w));
            }
            i = i + 1;
        }
        assert(self.windows@.take(n as int) =~= self.windows@);
        r
    }

    /// Whether the configuration has any route template.
    pub fn has_route_templates(&self) -> (r: bool)
        ensures
            r == (self.route_templates().len() > 0),
    {
        let t = self.route_window_templates();
        !t.is_empty()
    }

    /// Whether `label` names an instance of a route template: a template with
    /// a given label `t` for which `label` is `t` itself or `t`, a dash and at
    /// least one more character.
    pub fn is_route_instance_label(&self, label: &str) -> (r: bool)
        ensures
            r == self.is_route_instance(label@),
    {
        let main_label = self.main_window_label();
        let n = self.windows.len();
        let mut i: usize = 0;
        while i < n
            invariant
                n == self.windows@.len(),
                main_label@ == self.main_label(),
                i <= n,
                forall|k: int| 0 <= k < i ==> !#[trigger] self.instance_of_window(k, label@),
            decreases n - i,
        {
            if self.window_is_instance(i, main_label, label) {
                return true;
            }
            i = i + 1;
        }
        false
    }

    /// Window `i` is a route template of which `label` is an instance.
    fn window_is_instance(&self, i: usize, main_label: &str, label: &str) -> (r: bool)
        requires
            i < self.windows@.len(),
            main_label@ == self.main_label(),
        ensures
            r == self.instance_of_window(i as int, label@),
    {
        let w = &self.windows[i];
        if str_eq(w.label_str(), main_label) {
            return false;
        }
        match w.given_label_str() {
            Some(t) => is_instance_of(label, t),
            None => false,
        }
    }

    /// The window that `label` resolves to: the window labelled so, else the
    /// first route template of which `label` is an instance.
    pub fn resolve_window_config(&self, label: &str) -> (r: Result<&WindowConfig, String>)
        ensures
            match self.resolve_index(label@) {
                Some(i) => r matches Ok(w) && *w == self.windows@[i],
                None => r matches Err(e) && e@ == unknown_label_message(label@),
            },
    {
        if let Ok(config) = self.window_config_by_label(label) {
            return Ok(config);
        }
        let main_label = self.main_window_label();
        let n = self.windows.len();
        let ghost p = self.instance_of(label@);
        let mut i: usize = 0;
        while i < n
            invariant
                n == self.windows@.len(),
                main_label@ == self.main_label(),
                p == self.instance_of(label@),
                self.lookup_index(label@) is None,
                i <= n,
                forall|k: int| 0 <= k < i ==> !#[trigger] p(k),
            decreases n - i,
        {
            if self.window_is_instance(i, main_label, label) {
                proof {
                    lemma_first_index_found(n as int, p, i as int);
                }
                return Ok(&self.windows[i]);
            }
            i = i + 1;
        }
        proof {
            lemma_first_index_absent(n as int, p);
        }
        Err(unknown_label_error(label))
    }

    /// The label of the main window.
    pub fn main_window_label(&self) -> (r: &str)
        ensures
            r@ == self.main_label(),
    {
        if self.windows.len() > 0 {
            self.windows[0].label_str()
        } else {
            MAIN_WINDOW_LABEL
        }
    }
}

} // verus!
