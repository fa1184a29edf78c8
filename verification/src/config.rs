//! Application configuration: the record itself, its defaults, and the
//! in-memory manager.
//!
//! Reading and writing the on-disk form is left to the surrounding
//! application; the manager here owns the current value and the list
//! manipulation that goes with it.

use vstd::prelude::*;
use vstd::string::StringExecFns;

verus! {

/// Persistent application settings.
#[derive(Debug)]
pub struct AppConfig {
    pub copilot_path: Option<String>,
    pub default_model: Option<String>,
    pub theme: String,
    pub recent_projects: Vec<String>,
    pub font_size: u16,
    pub font_family: String,
    pub show_line_numbers: bool,
    pub auto_scroll: bool,
    pub send_on_enter: bool,
    pub notification_sound: bool,
    pub accent_color: String,
}

/// View of [`AppConfig`].
pub struct AppConfigView {
    pub copilot_path: Option<Seq<char>>,
    pub default_model: Option<Seq<char>>,
    pub theme: Seq<char>,
    pub recent_projects: Seq<Seq<char>>,
    pub font_size: u16,
    pub font_family: Seq<char>,
    pub show_line_numbers: bool,
    pub auto_scroll: bool,
    pub send_on_enter: bool,
    pub notification_sound: bool,
    pub accent_color: Seq<char>,
}

impl View for AppConfig {
    type V = AppConfigView;

    open spec fn view(&self) -> AppConfigView {
        AppConfigView {
            copilot_path: match &self.copilot_path {
                Some(p) => Some(p@),
                None => None,
            },
            default_model: match &self.default_model {
                Some(m) => Some(m@),
                None => None,
            },
            theme: self.theme@,
            recent_projects: self.recent_projects.deep_view(),
            font_size: self.font_size,
            font_family: self.font_family@,
            show_line_numbers: self.show_line_numbers,
            auto_scroll: self.auto_scroll,
            send_on_enter: self.send_on_enter,
            notification_sound: self.notification_sound,
            accent_color: self.accent_color@,
        }
    }
}

impl DeepView for AppConfig {
    type V = AppConfigView;

    open spec fn deep_view(&self) -> AppConfigView {
        self.view()
    }
}

/// The configuration a fresh installation starts from.
pub open spec fn default_config() -> AppConfigView {
    AppConfigView {
        copilot_path: None,
        default_model: None,
        theme: "dark"@,
        recent_projects: Seq::empty(),
        font_size: 14,
        font_family: "SF Mono"@,
        show_line_numbers: true,
        auto_scroll: true,
        send_on_enter: true,
        notification_sound: false,
        accent_color: "blue"@,
    }
}

impl core::default::Default for AppConfig {
    /// The default settings: dark theme, 14-point SF Mono, helper toggles on,
    /// notification sound off, blue accent.
    fn default() -> (r: AppConfig)
        ensures
            r@ == default_config(),
    {
        let r = AppConfig {
            copilot_path: None,
            default_model: None,
            theme: String::from_str("dark"),
            recent_projects: Vec::new(),
            font_size: 14,
            font_family: String::from_str("SF Mono"),
            show_line_numbers: true,
            auto_scroll: true,
            send_on_enter: true,
            notification_sound: false,
            accent_color: String::from_str("blue"),
        };
        proof {
            assert(r.recent_projects.deep_view() =~= Seq::<Seq<char>>::empty());
        }
        r
    }
}

/// Default font size used when a stored configuration lacks the field.
pub fn default_font_size() -> (r: u16)
    ensures
        r == 14,
{
    14
}

/// Default font family used when a stored configuration lacks the field.
pub fn default_font_family() -> (r: String)
    ensures
        r@ == "SF Mono"@,
{
    String::from_str("SF Mono")
}

/// Default for the boolean toggles that are on unless switched off.
pub fn default_true() -> (r: bool)
    ensures
        r == true,
{
    true
}

/// Default accent color used when a stored configuration lacks the field.
pub fn default_accent_color() -> (r: String)
    ensures
        r@ == "blue"@,
{
    String::from_str("blue")
}

/// Field-for-field copy of a configuration record.
fn clone_config(c: &AppConfig) -> (r: AppConfig)
    ensures
        r@ == c@,
{
    let recent = clone_string_vec(&c.recent_projects);
    let r = AppConfig {
        copilot_path: match &c.copilot_path {
            Some(p) => Some(p.clone()),
            None => None,
        },
        default_model: match &c.default_model {
            Some(m) => Some(m.clone()),
            None => None,
        },
        theme: c.theme.clone(),
        recent_projects: recent,
        font_size: c.font_size,
        font_family: c.font_family.clone(),
        show_line_numbers: c.show_line_numbers,
        auto_scroll: c.auto_scroll,
        send_on_enter: c.send_on_enter,
        notification_sound: c.notification_sound,
        accent_color: c.accent_color.clone(),
    };
    r
}

/// Element-for-element copy of a list of strings.
pub fn clone_string_vec(v: &Vec<String>) -> (r: Vec<String>)
    ensures
        r.deep_view() == v.deep_view(),
{
    let n = v.len();
    let mut r: Vec<String> = Vec::new();
    let mut i: usize = 0;
    while i < n
        invariant
            i <= n,
            n == v.len(),
            r.deep_view() =~= v.deep_view().subrange(0, i as int),
        decreases n - i,
    {
        let ghost prev = r.deep_view();
        r.push(v[i].clone());
        proof {
            assert(r.deep_view() =~= prev.push(v@[i as int]@));
            assert(v.deep_view().subrange(0, i + 1 as int) =~= v.deep_view().subrange(
                0,
                i as int,
            ).push(v.deep_view()[i as int]));
        }
        i = i + 1;
    }
    proof {
        assert(v.deep_view().subrange(0, n as int) =~= v.deep_view());
    }
    r
}

/// `s` with every occurrence of `p` removed, order otherwise kept.
pub open spec fn without_project(s: Seq<Seq<char>>, p: Seq<char>) -> Seq<Seq<char>>
    decreases s.len(),
{
    if s.len() == 0 {
        Seq::empty()
    } else if s[0] == p {
        without_project(s.drop_first(), p)
    } else {
        seq![s[0]] + without_project(s.drop_first(), p)
    }
}

/// [`without_project`] distributes over appending one element at the back.
proof fn lemma_without_project_push(s: Seq<Seq<char>>, x: Seq<char>, p: Seq<char>)
    ensures
        without_project(s.push(x), p) == (if x == p {
            without_project(s, p)
        } else {
            without_project(s, p) + seq![x]
        }),
    decreases s.len(),
{
    let pushed = s.push(x);
    if s.len() == 0 {
        assert(pushed.len() == 1);
        assert(pushed[0] == x);
        assert(pushed.drop_first() =~= s);
        assert(without_project(s, p) == Seq::<Seq<char>>::empty());
        if x == p {
            assert(without_project(pushed, p) == without_project(pushed.drop_first(), p));
        } else {
            assert(without_project(pushed, p) == seq![x] + without_project(
                pushed.drop_first(),
                p,
            ));
            assert(seq![x] + Seq::<Seq<char>>::empty() =~= Seq::<Seq<char>>::empty() + seq![x]);
        }
    } else {
        assert(pushed[0] == s[0]);
        assert(pushed.drop_first() =~= s.drop_first().push(x));
        lemma_without_project_push(s.drop_first(), x, p);
        if s[0] != p {
            if x != p {
                assert(seq![s[0]] + (without_project(s.drop_first(), p) + seq![x]) =~= (seq![
                    s[0],
                ] + without_project(s.drop_first(), p)) + seq![x]);
            }
        }
    }
}

/// The recent-projects list after recording `p`: `p` first, every older copy
/// of it dropped, and at most ten entries kept.
pub open spec fn pushed_recent(s: Seq<Seq<char>>, p: Seq<char>) -> Seq<Seq<char>> {
    let base = seq![p] + without_project(s, p);
    if base.len() <= 10 {
        base
    } else {
        base.subrange(0, 10)
    }
}

/// Owner of the current configuration value.
pub struct ConfigManager {
    config: AppConfig,
}

impl View for ConfigManager {
    type V = AppConfigView;

    closed spec fn view(&self) -> AppConfigView {
        self.config@
    }
}

impl ConfigManager {
    /// A manager holding the given starting configuration.
    pub fn new(initial: AppConfig) -> (r: ConfigManager)
        ensures
            r@ == initial@,
    {
        ConfigManager { config: initial }
    }

    /// The current configuration.
    pub fn get_config(&self) -> (r: AppConfig)
        ensures
            r@ == self@,
    {
        clone_config(&self.config)
    }

    /// Replace the current configuration.
    pub fn update_config(&mut self, new_config: AppConfig)
        ensures
            final(self)@ == new_config@,
    {
        self.config = new_config;
    }

    /// Move `path` to the front of the recent-projects list, dropping older
    /// copies of it and keeping at most ten entries.
    pub fn add_recent_project(&mut self, path: &str)
        ensures
            final(self)@ == (AppConfigView {
                recent_projects: pushed_recent(old(self)@.recent_projects, path@),
                ..old(self)@
            }),
    {
        let ghost olds = self.config.recent_projects.deep_view();
        let owned = path.to_owned();
        let mut kept: Vec<String> = Vec::new();
        kept.push(path.to_owned());
        let n = self.config.recent_projects.len();
        let mut i: usize = 0;
        while i < n
            invariant
                i <= n,
                n == self.config.recent_projects.len(),
                self@ == old(self)@,
                olds == self.config.recent_projects.deep_view(),
                owned@ == path@,
                kept.deep_view() =~= seq![path@] + without_project(
                    olds.subrange(0, i as int),
                    path@,
                ),
            decreases n - i,
        {
            let entry = &self.config.recent_projects[i];
            let ghost prev = kept.deep_view();
            if !(*entry == owned) {
                kept.push(entry.clone());
                proof {
                    assert(kept.deep_view() =~= prev.push(olds[i as int]));
                }
            }
            proof {
                assert(olds.subrange(0, i + 1 as int) =~= olds.subrange(0, i as int).push(
                    olds[i as int],
                ));
                lemma_without_project_push(olds.subrange(0, i as int), olds[i as int], path@);
            }
            i = i + 1;
        }
        proof {
            assert(olds.subrange(0, n as int) =~= olds);
        }
        let ghost base = kept.deep_view();
        kept.truncate(10);
        proof {
            assert(base == seq![path@] + without_project(olds, path@));
            if base.len() <= 10 {
                assert(kept.deep_view() =~= base);
            } else {
                assert(kept.deep_view() =~= base.subrange(0, 10));
            }
        }
        self.config.recent_projects = kept;
        proof {
            assert(self@ == (AppConfigView {
                recent_projects: pushed_recent(old(self)@.recent_projects, path@),
                ..old(self)@
            }));
        }
    }

    /// Switch the theme.
    pub fn set_theme(&mut self, theme: &str)
        ensures
            final(self)@ == (AppConfigView { theme: theme@, ..old(self)@ }),
    {
        self.config.theme = theme.to_owned();
    }
}

} // verus!
