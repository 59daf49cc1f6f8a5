//! Browser settings. They are read at startup, and again when the window regains focus.

use vstd::prelude::*;

use crate::paths::{is_same_place, same_place};
use crate::text::{after_prefix, same, strip_prefix, trim, trimmed};
use crate::weburl::view_opt;

verus! {

/// The page that a browser without other instructions starts on.
pub const DEFAULT_HOMEPAGE: &'static str = "https://servo.org";

/// Which edge of the window the utility bar is anchored to.
#[derive(Clone, Copy, Debug, PartialEq, Eq, Structural)]
pub enum BarPosition {
    Top,
    Bottom,
}

impl BarPosition {
    /// The edge that a key of the configuration names.
    pub open spec fn of_key(key: Seq<char>) -> BarPosition {
        if key == "bottom"@ {
            BarPosition::Bottom
        } else {
            BarPosition::Top
        }
    }

    /// See [`BarPosition::of_key`].
    pub fn from_key(key: &str) -> (r: BarPosition)
        ensures
            r == BarPosition::of_key(key@),
    {
        if same(key, "bottom") {
            BarPosition::Bottom
        } else {
            BarPosition::Top
        }
    }
}

/// The color scheme that pages are told to prefer.
#[derive(Clone, Copy, Debug, PartialEq, Eq, Structural)]
pub enum ColorScheme {
    Dark,
    Light,
    /// Dark by force: a stylesheet inverts the page, for sites that have no dark theme at all.
    ForceDark,
}

impl ColorScheme {
    /// The scheme that a key of the configuration names.
    pub open spec fn of_key(key: Seq<char>) -> ColorScheme {
        if key == "light"@ {
            ColorScheme::Light
        } else if key == "force-dark"@ {
            ColorScheme::ForceDark
        } else {
            ColorScheme::Dark
        }
    }

    /// See [`ColorScheme::of_key`].
    pub fn from_key(key: &str) -> (r: ColorScheme)
        ensures
            r == ColorScheme::of_key(key@),
    {
        if same(key, "light") {
            ColorScheme::Light
        } else if same(key, "force-dark") {
            ColorScheme::ForceDark
        } else {
            ColorScheme::Dark
        }
    }

    /// Whether pages are told to prefer dark. Force-dark says light on purpose: the stylesheet
    /// inverts unconditionally, and would turn a site's own dark theme back into a light one.
    pub fn is_dark(self) -> (r: bool)
        ensures
            r == (self == ColorScheme::Dark),
            r ==> self != ColorScheme::ForceDark,
    {
        match self {
            ColorScheme::Dark => true,
            _ => false,
        }
    }

    /// Whether the inverting stylesheet is installed.
    pub fn forces_dark(self) -> (r: bool)
        ensures
            r == (self == ColorScheme::ForceDark),
    {
        match self {
            ColorScheme::ForceDark => true,
            _ => false,
        }
    }
}

/// The settings.
#[derive(Clone, Debug)]
pub struct Settings {
    pub homepage: String,
    /// The start of a search address; the escaped terms are appended.
    pub search_prefix: String,
    /// The directory for downloads, where another than the default is wanted.
    pub download_dir: Option<String>,
    /// Whether page visits are recorded.
    pub history: bool,
    pub bar_position: BarPosition,
    pub color_scheme: ColorScheme,
    /// The command that opens a page in another browser, where one is set.
    pub external_browser: Option<String>,
}

/// What the settings say.
#[verifier::ext_equal]
pub struct SettingsView {
    pub homepage: Seq<char>,
    pub search_prefix: Seq<char>,
    pub download_dir: Option<Seq<char>>,
    pub history: bool,
    pub bar_position: BarPosition,
    pub color_scheme: ColorScheme,
    pub external_browser: Option<Seq<char>>,
}

impl View for Settings {
    type V = SettingsView;

    open spec fn view(&self) -> SettingsView {
        SettingsView {
            homepage: self.homepage@,
            search_prefix: self.search_prefix@,
            download_dir: view_opt(self.download_dir),
            history: self.history,
            bar_position: self.bar_position,
            color_scheme: self.color_scheme,
            external_browser: view_opt(self.external_browser),
        }
    }
}

/// The address that a search engine's queries start with; an unknown key is the first of them.
pub open spec fn search_prefix_of(key: Seq<char>) -> Seq<char> {
    if key == "google"@ {
        "https://www.google.com/search?q="@
    } else if key == "bing"@ {
        "https://www.bing.com/search?q="@
    } else if key == "wikipedia"@ {
        "https://en.wikipedia.org/wiki/Special:Search?search="@
    } else {
        "https://duckduckgo.com/html/?q="@
    }
}

/// See [`search_prefix_of`].
pub fn search_prefix(key: &str) -> (r: &'static str)
    ensures
        r@ == search_prefix_of(key@),
{
    if same(key, "google") {
        "https://www.google.com/search?q="
    } else if same(key, "bing") {
        "https://www.bing.com/search?q="
    } else if same(key, "wikipedia") {
        "https://en.wikipedia.org/wiki/Special:Search?search="
    } else {
        "https://duckduckgo.com/html/?q="
    }
}

/// The values of the configuration file that the browser looks at, where they have the right type.
#[derive(Clone, Debug, Default)]
pub struct Config {
    pub homepage: Option<String>,
    pub search: Option<String>,
    pub download_dir: Option<String>,
    pub history: Option<bool>,
    pub bar_position: Option<String>,
    pub color_scheme: Option<String>,
    pub external_browser: Option<String>,
}

/// A value without the white space around it, where that leaves anything.
pub open spec fn said(value: Option<Seq<char>>) -> Option<Seq<char>> {
    match value {
        Some(v) => if trimmed(v).len() > 0 {
            Some(trimmed(v))
        } else {
            None
        },
        None => None,
    }
}

/// A value, or its default.
pub open spec fn or_else(value: Option<Seq<char>>, default: Seq<char>) -> Seq<char> {
    match value {
        Some(v) => v,
        None => default,
    }
}

/// A directory as written, with a `~/` at its start read as the home directory.
pub open spec fn expanded(dir: Seq<char>, home: Seq<char>) -> Seq<char> {
    match after_prefix(dir, "~/"@) {
        Some(rest) => home + seq!['/'] + rest,
        None => dir,
    }
}

/// The settings that a configuration makes.
pub open spec fn settings_of(c: Config, home: Seq<char>) -> SettingsView {
    SettingsView {
        homepage: or_else(said(view_opt(c.homepage)), DEFAULT_HOMEPAGE@),
        search_prefix: search_prefix_of(or_else(view_opt(c.search), "duckduckgo"@)),
        download_dir: match said(view_opt(c.download_dir)) {
            Some(d) => Some(expanded(d, home)),
            None => None,
        },
        history: match c.history {
            Some(h) => h,
            None => true,
        },
        bar_position: BarPosition::of_key(or_else(view_opt(c.bar_position), "top"@)),
        color_scheme: ColorScheme::of_key(or_else(view_opt(c.color_scheme), "dark"@)),
        external_browser: said(view_opt(c.external_browser)),
    }
}

fn spoken(value: &Option<String>) -> (r: Option<String>)
    ensures
        view_opt(r) == said(view_opt(*value)),
{
    match value {
        Some(v) => {
            let t = trim(v.as_str());
            if t.as_str().is_empty() {
                None
            } else {
                Some(t)
            }
        },
        None => None,
    }
}

fn or_default(value: &Option<String>, default: &str) -> (r: String)
    ensures
        r@ == or_else(view_opt(*value), default@),
{
    match value {
        Some(v) => v.clone(),
        None => default.to_owned(),
    }
}

/// See [`settings_of`].
pub fn load(config: &Config, home: &str) -> (r: Settings)
    ensures
        r@ == settings_of(*config, home@),
{
    let homepage = match spoken(&config.homepage) {
        Some(h) => h,
        None => DEFAULT_HOMEPAGE.to_owned(),
    };
    let download_dir = match spoken(&config.download_dir) {
        Some(d) => match strip_prefix(d.as_str(), "~/") {
            Some(rest) => {
                let mut out = home.to_owned();
                out.push('/');
                out.append(rest.as_str());
                assert(out@ =~= home@ + seq!['/'] + rest@);
                Some(out)
            },
            None => Some(d),
        },
        None => None,
    };
    let search = or_default(&config.search, "duckduckgo");
    let bar = or_default(&config.bar_position, "top");
    let scheme = or_default(&config.color_scheme, "dark");
    Settings {
        homepage,
        search_prefix: search_prefix(search.as_str()).to_owned(),
        download_dir,
        history: match config.history {
            Some(h) => h,
            None => true,
        },
        bar_position: BarPosition::from_key(bar.as_str()),
        color_scheme: ColorScheme::from_key(scheme.as_str()),
        external_browser: spoken(&config.external_browser),
    }
}

impl Default for Settings {
    /// The settings of a browser that has no configuration.
    fn default() -> (r: Settings)
        ensures
            r@ == (SettingsView {
                homepage: DEFAULT_HOMEPAGE@,
                search_prefix: "https://duckduckgo.com/html/?q="@,
                download_dir: None,
                history: true,
                bar_position: BarPosition::Top,
                color_scheme: ColorScheme::Dark,
                external_browser: None,
            }),
    {
        proof {
            lemma_engine_names();
        }
        Settings {
            homepage: DEFAULT_HOMEPAGE.to_owned(),
            search_prefix: search_prefix("duckduckgo").to_owned(),
            download_dir: None,
            history: true,
            bar_position: BarPosition::Top,
            color_scheme: ColorScheme::Dark,
            external_browser: None,
        }
    }
}

impl SettingsView {
    /// Whether two settings say the same. The directory for downloads is compared as a path: slashes
    /// at its end and dots on the way make no difference.
    pub open spec fn says(self, other: SettingsView) -> bool {
        &&& same_place(self.download_dir, other.download_dir)
        &&& self == (SettingsView { download_dir: self.download_dir, ..other })
    }
}

impl Settings {
    /// See [`SettingsView::says`].
    pub fn says_same(&self, other: &Settings) -> (r: bool)
        ensures
            r == self@.says(other@),
    {
        same(self.homepage.as_str(), other.homepage.as_str()) && same(
            self.search_prefix.as_str(),
            other.search_prefix.as_str(),
        ) && is_same_place(&self.download_dir, &other.download_dir) && self.history == other.history
            && self.bar_position == other.bar_position && self.color_scheme == other.color_scheme
            && same_opt(&self.external_browser, &other.external_browser)
    }
}

/// Whether two optional texts are the same.
pub fn same_opt(a: &Option<String>, b: &Option<String>) -> (r: bool)
    ensures
        r == (view_opt(*a) == view_opt(*b)),
{
    match (a, b) {
        (Some(x), Some(y)) => same(x.as_str(), y.as_str()),
        (None, None) => true,
        _ => false,
    }
}

/// An empty configuration makes the standard settings.
pub proof fn nothing_said_is_standard(c: Config, home: Seq<char>)
    requires
        c.homepage is None,
        c.search is None,
        c.download_dir is None,
        c.history is None,
        c.bar_position is None,
        c.color_scheme is None,
        c.external_browser is None,
    ensures
        settings_of(c, home) == (SettingsView {
            homepage: DEFAULT_HOMEPAGE@,
            search_prefix: "https://duckduckgo.com/html/?q="@,
            download_dir: None,
            history: true,
            bar_position: BarPosition::Top,
            color_scheme: ColorScheme::Dark,
            external_browser: None,
        }),
{
    lemma_engine_names();
    reveal_strlit("top");
    reveal_strlit("bottom");
    reveal_strlit("dark");
    reveal_strlit("light");
    reveal_strlit("force-dark");
    assert("top"@.len() == 3 && "bottom"@.len() == 6);
    assert("dark"@.len() == 4 && "light"@.len() == 5 && "force-dark"@.len() == 10);
}

proof fn lemma_engine_names()
    ensures
        "duckduckgo"@ != "google"@,
        "duckduckgo"@ != "bing"@,
        "duckduckgo"@ != "wikipedia"@,
{
    reveal_strlit("duckduckgo");
    reveal_strlit("google");
    reveal_strlit("bing");
    reveal_strlit("wikipedia");
    assert("duckduckgo"@.len() == 10);
    assert("google"@.len() == 6);
    assert("bing"@.len() == 4);
    assert("wikipedia"@.len() == 9);
}

} // verus!
