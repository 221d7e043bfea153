//! Properties of the window rules that hold across operations.
use vstd::prelude::*;

use crate::config::{
    first_index, first_repeat, is_first, is_instance_label, lemma_first_index_found,
    lemma_first_index_props, repeats_earlier, PakeConfig,
};
use crate::text::{decimal, is_prefix, lemma_decimal_injective, lemma_decimal_nonempty};
use crate::builder::{browser_args_spec, first_nonempty};
use crate::platform::Platform;
use crate::web_url::{url_parse, UrlParts};
use crate::window::{
    instance_label, next_count, popup_label, proxy_browser_arg, target_from_parse, webview_target,
    TargetView,
};
use crate::config::WindowConfig;

verus! {

/// Label validation accepts a configuration exactly when no two of its
/// windows share a label.
pub proof fn law_validation_accepts_distinct_labels(config: PakeConfig)
    ensures
        first_repeat(config.labels()) is None <==> config.labels().no_duplicates(),
{
    let labels = config.labels();
    let p = |i: int| repeats_earlier(labels, i);
    lemma_first_index_props(labels.len() as int, p);
    if first_repeat(labels) is None {
        assert forall|i: int, j: int|
            0 <= i < labels.len() && 0 <= j < labels.len() && i != j implies labels[i]
            != labels[j] by {
            if i < j {
                assert(!p(j));
            } else {
                assert(!p(i));
            }
        }
    } else {
        let i = first_repeat(labels)->0;
        assert(p(i));
        let j = choose|j: int| 0 <= j < i && labels[j] == labels[i];
        assert(labels[j] == labels[i]);
    }
}

/// In a configuration that passes label validation, each window's label
/// looks up, and resolves to, that very window.
pub proof fn law_validated_labels_find_their_window(config: PakeConfig, i: int)
    requires
        first_repeat(config.labels()) is None,
        0 <= i < config.windows@.len(),
    ensures
        config.lookup_index(config.windows@[i].window_label()) == Some(i),
        config.resolve_index(config.windows@[i].window_label()) == Some(i),
{
    law_validation_accepts_distinct_labels(config);
    let labels = config.labels();
    let l = config.windows@[i].window_label();
    assert(labels[i] == l);
    assert forall|j: int| 0 <= j < i implies !#[trigger] config.labelled(l)(j) by {
        assert(labels[j] != labels[i]);
    }
    assert(is_first(config.windows@.len() as int, config.labelled(l), i));
    lemma_first_index_found(config.windows@.len() as int, config.labelled(l), i);
}

/// The main label looks up the first window, and the first window is
/// never a route template.
pub proof fn law_main_label_finds_first_window(config: PakeConfig)
    requires
        config.windows@.len() > 0,
    ensures
        config.lookup_index(config.main_label()) == Some(0int),
        !config.is_route_template(0),
        config.route_templates().len() < config.windows@.len(),
{
    let l = config.main_label();
    assert(is_first(config.windows@.len() as int, config.labelled(l), 0));
    lemma_first_index_found(config.windows@.len() as int, config.labelled(l), 0);
    let pred = PakeConfig::not_labelled(l);
    lemma_filter_excludes(config.windows@, pred, 0);
}

/// Filtering out an element shortens the sequence.
proof fn lemma_filter_excludes<A>(s: Seq<A>, pred: spec_fn(A) -> bool, i: int)
    requires
        0 <= i < s.len(),
        !pred(s[i]),
    ensures
        s.filter(pred).len() < s.len(),
    decreases s.len(),
{
    reveal(Seq::filter);
    let rest = s.drop_last();
    rest.lemma_filter_len(pred);
    if i < s.len() - 1 {
        assert(rest[i] == s[i]);
        lemma_filter_excludes(rest, pred, i);
    }
}

/// Some window is a route template exactly when the route templates are
/// not empty.
pub proof fn law_route_templates_nonempty(config: PakeConfig)
    ensures
        config.route_templates().len() > 0 <==> exists|i: int|
            0 <= i < config.windows@.len() && #[trigger] config.is_route_template(i),
{
    let pred = PakeConfig::not_labelled(config.main_label());
    let s = config.windows@;
    if config.route_templates().len() > 0 {
        s.lemma_filter_pred(pred, 0);
        let t = s.filter(pred)[0];
        assert(s.filter(pred).contains(t));
        s.lemma_filter_contains_rev(pred, t);
        let j = choose|j: int| 0 <= j < s.len() && s[j] == t;
        assert(config.is_route_template(j));
    }
    if exists|i: int| 0 <= i < s.len() && #[trigger] config.is_route_template(i) {
        let i = choose|i: int| 0 <= i < s.len() && #[trigger] config.is_route_template(i);
        s.lemma_filter_contains(pred, i);
    }
}

/// A label that is a route instance always resolves, to a window that
/// carries it or to a route template of which it is an instance.
pub proof fn law_route_instances_resolve(config: PakeConfig, label: Seq<char>)
    requires
        config.is_route_instance(label),
    ensures
        config.resolve_index(label) matches Some(k) && 0 <= k < config.windows@.len() && (
        config.windows@[k].window_label() == label || config.instance_of_window(k, label)),
{
    let n = config.windows@.len() as int;
    lemma_first_index_props(n, config.labelled(label));
    lemma_first_index_props(n, config.instance_of(label));
    if config.lookup_index(label) is None {
        let i = choose|i: int| 0 <= i < n && #[trigger] config.instance_of_window(i, label);
        assert(config.instance_of(label)(i));
    }
}

/// The instance labels handed out for a route template with a given
/// label are route instances, so they always resolve.
pub proof fn law_instance_labels_are_route_instances(config: PakeConfig, i: int, n: nat)
    requires
        0 <= i < config.windows@.len(),
        config.is_route_template(i),
        config.windows@[i].given_label() is Some,
    ensures
        config.is_route_instance(instance_label(config.windows@[i].given_label()->0, n)),
        config.resolve_index(instance_label(config.windows@[i].given_label()->0, n)) is Some,
{
    let t = config.windows@[i].given_label()->0;
    let l = instance_label(t, n);
    reveal_strlit("-");
    lemma_decimal_nonempty(n);
    assert(l.subrange(0, t.len() as int) =~= t);
    assert(l[t.len() as int] == '-');
    assert(is_instance_label(l, t));
    assert(config.instance_of_window(i, l));
    law_route_instances_resolve(config, l);
}

/// Different counts give different instance labels of the same template.
pub proof fn law_instance_labels_distinct(t: Seq<char>, a: nat, b: nat)
    requires
        a != b,
    ensures
        instance_label(t, a) != instance_label(t, b),
{
    reveal_strlit("-");
    if instance_label(t, a) == instance_label(t, b) {
        let la = instance_label(t, a);
        let lb = instance_label(t, b);
        assert(la.subrange(t.len() as int + 1, la.len() as int) =~= decimal(a));
        assert(lb.subrange(t.len() as int + 1, lb.len() as int) =~= decimal(b));
        lemma_decimal_injective(a, b);
    }
}

/// Different counts give different popup labels.
pub proof fn law_popup_labels_distinct(a: nat, b: nat)
    requires
        a != b,
    ensures
        popup_label(a) != popup_label(b),
{
    reveal_strlit("pake-");
    if popup_label(a) == popup_label(b) {
        let la = popup_label(a);
        let lb = popup_label(b);
        assert(la.subrange(5, la.len() as int) =~= decimal(a));
        assert(lb.subrange(5, lb.len() as int) =~= decimal(b));
        lemma_decimal_injective(a, b);
    }
}

/// The round-robin position over the route templates moves by exactly one
/// per call, wrapping to zero only after `u32::MAX`; so a call picks the
/// template after the one the previous call picked, and `k` consecutive
/// calls over `k` templates (from a position below `u32::MAX - k`) pick
/// every template once, in order.
pub proof fn law_round_robin_advances_by_one(position: u32, templates: nat)
    requires
        templates > 0,
    ensures
        position < u32::MAX ==> next_count(position) == position + 1,
        position == u32::MAX ==> next_count(position) == 0,
        position < u32::MAX ==> (next_count(position) as int) % (templates as int) == ((
        position as int) % (templates as int) + 1) % (templates as int),
{
    if position < u32::MAX {
        vstd::arithmetic::div_mod::lemma_add_mod_noop(position as int, 1, templates as int);
        if templates > 1 {
            vstd::arithmetic::div_mod::lemma_small_mod(1, templates);
        } else {
            assert(((position as int) % 1 + 1) % 1 == 0);
            assert((next_count(position) as int) % 1 == 0);
        }
    }
}

/// A `web` window whose URL parses with scheme `http` or `https` loads that
/// very URL from the web; any other scheme loads the URL's path from the
/// app; a URL that does not parse is an error that quotes the URL and the
/// parse error.
pub proof fn law_web_urls_load_as_given(w: WindowConfig, p: UrlParts, e: Seq<char>)
    ensures
        p.0 == "http"@ ==> target_from_parse(w.url@, Ok(p)) == Ok::<TargetView, Seq<char>>(
            TargetView::External(p),
        ),
        p.0 == "https"@ ==> target_from_parse(w.url@, Ok(p)) == Ok::<TargetView, Seq<char>>(
            TargetView::External(p),
        ),
        p.0 != "http"@ && p.0 != "https"@ ==> target_from_parse(w.url@, Ok(p)) == Ok::<
            TargetView,
            Seq<char>,
        >(TargetView::App(p.3)),
        target_from_parse(w.url@, Err(e)) == Err::<TargetView, Seq<char>>(
            "Invalid 'web' url '"@ + w.url@ + "' in pake.json: "@ + e,
        ),
        w.url_type@ == "web"@ && url_parse(w.url@) == Ok::<UrlParts, Seq<char>>(p) && (p.0
            == "http"@ || p.0 == "https"@) ==> webview_target(w) == Ok::<TargetView, Seq<char>>(
            TargetView::External(p),
        ),
        w.url_type@ == "local"@ ==> webview_target(w) == Ok::<TargetView, Seq<char>>(
            TargetView::App(w.url@),
        ),
{
    reveal_strlit("http");
    reveal_strlit("https");
    reveal_strlit("web");
    reveal_strlit("local");
    assert("http"@ != "https"@) by {
        assert("http"@.len() != "https"@.len());
    }
    assert("web"@ != "local"@) by {
        assert("web"@.len() != "local"@.len());
    }
}

/// Only `http` and `socks5` proxies with a host get a browser argument; it
/// names the scheme, the host, and the explicit port or else the scheme's
/// default (80 for `http`, 1080 for `socks5`).
pub proof fn law_proxy_argument(u: UrlParts)
    ensures
        proxy_browser_arg(u) is Some ==> (u.0 == "http"@ || u.0 == "socks5"@) && u.1 is Some,
        u.0 != "http"@ && u.0 != "socks5"@ ==> proxy_browser_arg(u) is None,
        u.1 is None ==> proxy_browser_arg(u) is None,
        (u.0 == "http"@ || u.0 == "socks5"@) && u.1 is Some && u.2 is Some ==> proxy_browser_arg(u)
            == Some("--proxy-server="@ + u.0 + "://"@ + u.1->0 + ":"@ + decimal(u.2->0 as nat)),
        u.0 == "http"@ && u.1 is Some && u.2 is None ==> proxy_browser_arg(u) == Some(
            "--proxy-server="@ + u.0 + "://"@ + u.1->0 + ":"@ + decimal(80),
        ),
        u.0 == "socks5"@ && u.1 is Some && u.2 is None ==> proxy_browser_arg(u) == Some(
            "--proxy-server="@ + u.0 + "://"@ + u.1->0 + ":"@ + decimal(1080),
        ),
{
    reveal_strlit("http");
    reveal_strlit("socks5");
    assert("http"@ != "socks5"@) by {
        assert("http"@.len() != "socks5"@.len());
    }
}

/// On Linux and Windows the extra browser arguments are one string: the
/// platform's base flags, then ` --ignore-certificate-errors` exactly when
/// certificate errors are ignored, then the SharedArrayBuffer and WebGPU
/// flags exactly when WASM is enabled (then, on Windows, the proxy
/// argument). On macOS each flag is its own argument, present exactly when
/// its option is set.
pub proof fn law_browser_flags_follow_options(
    ignore_cert: bool,
    wasm: bool,
    proxy_arg: Option<Seq<char>>,
)
    ensures
        browser_args_spec(Platform::Linux, ignore_cert, wasm, proxy_arg) == seq![
            "--disable-blink-features=AutomationControlled"@ + (if ignore_cert {
                " --ignore-certificate-errors"@
            } else {
                Seq::<char>::empty()
            }) + (if wasm {
                " --enable-features=SharedArrayBuffer --enable-unsafe-webgpu"@
            } else {
                Seq::<char>::empty()
            }),
        ],
        browser_args_spec(Platform::Windows, ignore_cert, wasm, proxy_arg) == seq![
            "--disable-features=msWebOOUI,msPdfOOUI,msSmartScreenProtection --disable-blink-features=AutomationControlled"@
                + (if ignore_cert {
                " --ignore-certificate-errors"@
            } else {
                Seq::<char>::empty()
            }) + (if wasm {
                " --enable-features=SharedArrayBuffer --enable-unsafe-webgpu"@
            } else {
                Seq::<char>::empty()
            }) + match proxy_arg {
                Some(a) => " "@ + a,
                None => Seq::<char>::empty(),
            },
        ],
        browser_args_spec(Platform::MacOs, ignore_cert, wasm, proxy_arg).contains(
            "--ignore-certificate-errors"@,
        ) <==> ignore_cert,
        browser_args_spec(Platform::MacOs, ignore_cert, wasm, proxy_arg).contains(
            "--enable-features=SharedArrayBuffer"@,
        ) <==> wasm,
        browser_args_spec(Platform::MacOs, ignore_cert, wasm, proxy_arg).contains(
            "--enable-unsafe-webgpu"@,
        ) <==> wasm,
        browser_args_spec(Platform::MacOs, ignore_cert, wasm, proxy_arg).len() == (if ignore_cert {
            1nat
        } else {
            0nat
        }) + (if wasm {
            2nat
        } else {
            0nat
        }),
{
    reveal_strlit(" --enable-features=SharedArrayBuffer");
    reveal_strlit(" --enable-unsafe-webgpu");
    reveal_strlit(" --enable-features=SharedArrayBuffer --enable-unsafe-webgpu");
    assert(" --enable-features=SharedArrayBuffer"@ + " --enable-unsafe-webgpu"@
        =~= " --enable-features=SharedArrayBuffer --enable-unsafe-webgpu"@);
    let cert_flag = if ignore_cert {
        " --ignore-certificate-errors"@
    } else {
        Seq::<char>::empty()
    };
    let wasm_flags = if wasm {
        " --enable-features=SharedArrayBuffer --enable-unsafe-webgpu"@
    } else {
        Seq::<char>::empty()
    };
    assert(crate::builder::option_flags(ignore_cert, wasm) == cert_flag + wasm_flags);
    assert(crate::builder::linux_base_args() + (cert_flag + wasm_flags) =~= crate::builder::linux_base_args() + cert_flag + wasm_flags);
    let tail = match proxy_arg {
        Some(a) => " "@ + a,
        None => Seq::<char>::empty(),
    };
    assert(crate::builder::windows_base_args() + (cert_flag + wasm_flags) + tail
        =~= crate::builder::windows_base_args() + cert_flag + wasm_flags + tail);
    let ic = "--ignore-certificate-errors"@;
    let sab = "--enable-features=SharedArrayBuffer"@;
    let gpu = "--enable-unsafe-webgpu"@;
    reveal_strlit("--ignore-certificate-errors");
    reveal_strlit("--enable-features=SharedArrayBuffer");
    reveal_strlit("--enable-unsafe-webgpu");
    assert(ic.len() != sab.len() && ic.len() != gpu.len() && sab.len() != gpu.len());
    let args = browser_args_spec(Platform::MacOs, ignore_cert, wasm, proxy_arg);
    let a = if ignore_cert {
        seq![ic]
    } else {
        Seq::<Seq<char>>::empty()
    };
    let b = if wasm {
        seq![sab, gpu]
    } else {
        Seq::<Seq<char>>::empty()
    };
    assert(args == a + b);
    if ignore_cert {
        assert(args[0] == ic);
    }
    if wasm {
        assert(args[a.len() as int] == sab);
        assert(args[a.len() as int + 1] == gpu);
    }
    assert(args.contains(ic) ==> ignore_cert) by {
        if args.contains(ic) {
            let i = choose|i: int| 0 <= i < args.len() && args[i] == ic;
            if !ignore_cert {
                assert(args[i] == b[i]);
            }
        }
    }
    assert(args.contains(sab) ==> wasm) by {
        if args.contains(sab) {
            let i = choose|i: int| 0 <= i < args.len() && args[i] == sab;
            if !wasm && ignore_cert {
                assert(args[i] == a[i]);
            }
        }
    }
    assert(args.contains(gpu) ==> wasm) by {
        if args.contains(gpu) {
            let i = choose|i: int| 0 <= i < args.len() && args[i] == gpu;
            if !wasm && ignore_cert {
                assert(args[i] == a[i]);
            }
        }
    }
}

/// A download is named after the name the webview proposes when that is
/// non-empty; otherwise after the last segment of the URL's path when that
/// is non-empty, whether or not a name was proposed; otherwise `download`.
pub proof fn law_download_name_fallbacks(
    proposed: Option<Seq<char>>,
    last_segment: Option<Seq<char>>,
    default: Seq<char>,
)
    ensures
        proposed is Some && proposed->0.len() > 0 ==> first_nonempty(
            proposed,
            last_segment,
            default,
        ) == proposed->0,
        (proposed is None || proposed->0.len() == 0) && last_segment is Some && last_segment->0.len()
            > 0 ==> first_nonempty(proposed, last_segment, default) == last_segment->0,
        (proposed is None || proposed->0.len() == 0) && (last_segment is None
            || last_segment->0.len() == 0) ==> first_nonempty(proposed, last_segment, default)
            == default,
{
}

/// A route instance of the template `t` is `t` itself or `t`, a dash and a
/// non-empty suffix: `t-` alone is not one, nor is `t` followed by any
/// other character, nor a label that does not start with `t`.
pub proof fn law_instance_label_shape(t: Seq<char>, suffix: Seq<char>, c: char, label: Seq<char>)
    ensures
        is_instance_label(t, t),
        is_instance_label(t + "-"@ + suffix, t) <==> suffix.len() > 0,
        c != '-' ==> !is_instance_label(t + seq![c] + suffix, t),
        !is_prefix(t, label) ==> !is_instance_label(label, t),
{
    reveal_strlit("-");
    let l = t + "-"@ + suffix;
    assert(l.subrange(0, t.len() as int) =~= t);
    assert(l[t.len() as int] == '-');
    if is_instance_label(l, t) && suffix.len() == 0 {
        assert(l.len() == t.len() + 1);
    }
    let m = t + seq![c] + suffix;
    assert(m[t.len() as int] == c);
    if c != '-' && m == t {
        assert(m.len() > t.len());
    }
    if !is_prefix(t, label) && label == t {
        assert(label.subrange(0, t.len() as int) =~= t);
    }
}

/// An optional value read with a fallback gives the value when there is
/// one and the fallback otherwise.
pub proof fn law_fallbacks(o: Option<String>, default: Seq<char>)
    ensures
        o is Some ==> crate::builder::unwrap_or_view(o, default) == o->0@,
        o is None ==> crate::builder::unwrap_or_view(o, default) == default,
{
}

} // verus!
