//! Settings computed for the window builder: title, data directory name,
//! extra browser arguments, proxy, popup titles and download file names.
use vstd::prelude::*;

use crate::config::WindowConfig;
use crate::platform::Platform;
use crate::text::owned;
use crate::web_url::{parse_url, url_parse, WebUrl};
use crate::window::{build_proxy_browser_arg, opt_string_view, proxy_browser_arg};

verus! {

/// The browser arguments every Windows webview starts with.
pub open spec fn windows_base_args() -> Seq<char> {
    "--disable-features=msWebOOUI,msPdfOOUI,msSmartScreenProtection --disable-blink-features=AutomationControlled"@
}

/// The browser arguments every Linux webview starts with.
pub open spec fn linux_base_args() -> Seq<char> {
    "--disable-blink-features=AutomationControlled"@
}

/// The flags a window's options add, each preceded by a space.
pub open spec fn option_flags(ignore_cert: bool, wasm: bool) -> Seq<char> {
    (if ignore_cert {
        " --ignore-certificate-errors"@
    } else {
        Seq::<char>::empty()
    }) + (if wasm {
        " --enable-features=SharedArrayBuffer"@ + " --enable-unsafe-webgpu"@
    } else {
        Seq::<char>::empty()
    })
}

/// The extra browser arguments of a window on `platform`: on Windows and
/// Linux one argument string (on Windows with the proxy argument at its
/// end), on macOS one entry per flag.
pub open spec fn browser_args_spec(
    platform: Platform,
    ignore_cert: bool,
    wasm: bool,
    proxy_arg: Option<Seq<char>>,
) -> Seq<Seq<char>> {
    match platform {
        Platform::Windows => seq![
            windows_base_args() + option_flags(ignore_cert, wasm) + match proxy_arg {
                Some(a) => " "@ + a,
                None => Seq::<char>::empty(),
            },
        ],
        Platform::Linux => seq![linux_base_args() + option_flags(ignore_cert, wasm)],
        Platform::MacOs => (if ignore_cert {
            seq!["--ignore-certificate-errors"@]
        } else {
            Seq::<Seq<char>>::empty()
        }) + (if wasm {
            seq!["--enable-features=SharedArrayBuffer"@, "--enable-unsafe-webgpu"@]
        } else {
            Seq::<Seq<char>>::empty()
        }),
    }
}

/// The proxy argument that a configured proxy yields, if any.
pub open spec fn proxy_arg_of(proxy: Option<WebUrl>) -> Option<Seq<char>> {
    match proxy {
        Some(u) => proxy_browser_arg(u@),
        None => None,
    }
}

/// The characters of each string.
pub open spec fn strings_view(v: Seq<String>) -> Seq<Seq<char>> {
    v.map_values(|s: String| s@)
}

/// The extra browser arguments of `window` on `platform`, given the
/// parsed proxy of the configuration.
pub fn browser_args(platform: Platform, window: &WindowConfig, proxy: &Option<WebUrl>) -> (r: Vec<
    String,
>)
    ensures
        strings_view(r@) == browser_args_spec(
            platform,
            window.ignore_certificate_errors,
            window.enable_wasm,
            proxy_arg_of(*proxy),
        ),
{
    let ignore = window.ignore_certificate_errors;
    let wasm = window.enable_wasm;
    let mut r: Vec<String> = Vec::new();
    match platform {
        Platform::MacOs => {
            if ignore {
                r.push(owned("--ignore-certificate-errors"));
            }
            if wasm {
                r.push(owned("--enable-features=SharedArrayBuffer"));
                r.push(owned("--enable-unsafe-webgpu"));
            }
        },
        Platform::Linux => {
            let mut s = owned("--disable-blink-features=AutomationControlled");
            append_option_flags(&mut s, ignore, wasm);
            r.push(s);
        },
        Platform::Windows => {
            let mut s = owned(
                "--disable-features=msWebOOUI,msPdfOOUI,msSmartScreenProtection --disable-blink-features=AutomationControlled",
            );
            append_option_flags(&mut s, ignore, wasm);
            let arg = match proxy {
                Some(u) => build_proxy_browser_arg(u),
                None => None,
            };
            if let Some(a) = arg {
                s.append(" ");
                s.append(a.as_str());
            }
            assert(s@ =~= windows_base_args() + option_flags(ignore, wasm) + match proxy_arg_of(
                *proxy,
            ) {
                Some(a) => " "@ + a,
                None => Seq::<char>::empty(),
            });
            r.push(s);
        },
    }
    assert(strings_view(r@) =~= browser_args_spec(platform, ignore, wasm, proxy_arg_of(*proxy)));
    r
}

/// Appends the flags of a window's options.
fn append_option_flags(s: &mut String, ignore_cert: bool, wasm: bool)
    ensures
        final(s)@ == old(s)@ + option_flags(ignore_cert, wasm),
{
    if ignore_cert {
        s.append(" --ignore-certificate-errors");
    }
    if wasm {
        s.append(" --enable-features=SharedArrayBuffer");
        s.append(" --enable-unsafe-webgpu");
    }
    assert(final(s)@ =~= old(s)@ + option_flags(ignore_cert, wasm));
}

/// The proxy of the configuration: what `proxy_url` parses to, when it is
/// non-empty and parses.
pub fn parse_proxy_url(proxy_url: &str) -> (r: Option<WebUrl>)
    ensures
        proxy_url@.len() == 0 ==> r is None,
        proxy_url@.len() > 0 ==> match url_parse(proxy_url@) {
            Ok(p) => r matches Some(u) && u@ == p,
            Err(_) => r is None,
        },
{
    if proxy_url.is_empty() {
        return None;
    }
    match parse_url(proxy_url) {
        Ok(u) => Some(u),
        Err(_) => None,
    }
}

/// The characters of an optional string.
pub open spec fn unwrap_or_view(o: Option<String>, default: Seq<char>) -> Seq<char> {
    match o {
        Some(s) => s@,
        None => default,
    }
}

/// The title of a window: its own, else nothing on macOS and the product
/// name (or nothing) elsewhere.
pub fn window_title(platform: Platform, title: &Option<String>, product_name: &Option<String>) -> (r:
    String)
    ensures
        r@ == match title {
            Some(t) => t@,
            None => if platform == Platform::MacOs {
                Seq::<char>::empty()
            } else {
                unwrap_or_view(*product_name, Seq::<char>::empty())
            },
        },
{
    match title {
        Some(t) => t.clone(),
        None => match platform {
            Platform::MacOs => String::new(),
            _ => match product_name {
                Some(p) => p.clone(),
                None => String::new(),
            },
        },
    }
}

/// The name of the application's data directory: the product name, else
/// `pake`.
pub fn data_dir_name(product_name: &Option<String>) -> (r: String)
    ensures
        r@ == unwrap_or_view(*product_name, "pake"@),
{
    match product_name {
        Some(p) => p.clone(),
        None => owned("pake"),
    }
}

/// The title of a popup loading `url`: its host, else the whole URL.
pub fn popup_title(url: &WebUrl) -> (r: String)
    ensures
        r@ == match url@.1 {
            Some(h) => h,
            None => url@.4,
        },
{
    match &url.host {
        Some(h) => h.clone(),
        None => url.serialization.clone(),
    }
}

/// The first of two optional names that is present and non-empty.
pub open spec fn first_nonempty(a: Option<Seq<char>>, b: Option<Seq<char>>, default: Seq<
    char,
>) -> Seq<char> {
    if a matches Some(x) && x.len() > 0 {
        a->0
    } else if b matches Some(y) && y.len() > 0 {
        b->0
    } else {
        default
    }
}

/// The file name of a download: the name the webview proposes, else the
/// last segment of the download URL's path, else `download`.
pub fn download_file_name(proposed: Option<String>, last_segment: Option<String>) -> (r: String)
    ensures
        r@ == first_nonempty(opt_string_view(proposed), opt_string_view(last_segment), "download"@),
{
    if let Some(name) = proposed {
        if !name.as_str().is_empty() {
            return name;
        }
    }
    if let Some(segment) = last_segment {
        if !segment.as_str().is_empty() {
            return segment;
        }
    }
    owned("download")
}

} // verus!
