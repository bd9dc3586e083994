//! The process-wide configuration, kept as one record that is loaded once
//! and written back whole.

use crate::models::{duplicate_opt, opt_view, Duplicate};
use vstd::prelude::*;

verus! {

/// The application's identity.
pub const APP_ID: &'static str = "app.abbey.Abbey";

pub const APP_NAME: &'static str = "Abbey";

pub const APP_VERSION: &'static str = "0.1.0";

pub const FONT_SERIF: &'static str = "Crimson Pro";

pub const FONT_SANS: &'static str = "Inter";

pub const FONT_MONO: &'static str = "JetBrains Mono";

/// The editor's font size.
pub const EDITOR_FONT_SIZE: i32 = 18;

/// The editor's line height, in tenths of the font size.
pub const EDITOR_LINE_HEIGHT_TENTHS: u32 = 18;

/// The number of themes that come with the application.
pub const THEME_COUNT: usize = 4;

/// The identity of the theme at `index`, in the order in which they are
/// offered; `None` behind the last.
pub fn theme_id(index: usize) -> (r: Option<&'static str>)
    ensures
        r is Some <==> index < THEME_COUNT,
        index == 0 ==> r == Some("system-light"),
        index == 1 ==> r == Some("system-dark"),
        index == 2 ==> r == Some("newspaper"),
        index == 3 ==> r == Some("parchment"),
{
    if index == 0 {
        Some("system-light")
    } else if index == 1 {
        Some("system-dark")
    } else if index == 2 {
        Some("newspaper")
    } else if index == 3 {
        Some("parchment")
    } else {
        None
    }
}

/// The session lengths that are offered, in minutes; `None` behind the last.
pub fn flow_duration(index: usize) -> (r: Option<u32>)
    ensures
        r == if index == 0 {
            Some(5u32)
        } else if index == 1 {
            Some(10u32)
        } else if index == 2 {
            Some(15u32)
        } else if index == 3 {
            Some(20u32)
        } else {
            None
        },
{
    if index == 0 {
        Some(5)
    } else if index == 1 {
        Some(10)
    } else if index == 2 {
        Some(15)
    } else if index == 3 {
        Some(20)
    } else {
        None
    }
}

/// How light or dark the application is drawn.
#[derive(Clone, Copy, PartialEq, Eq, Structural, Debug)]
pub enum ColorScheme {
    Default,
    ForceLight,
    ForceDark,
}

/// The color scheme of a theme: dark for the dark theme, light for the
/// three other themes on offer, and the system's for any other name.
pub open spec fn scheme_of(theme: Seq<char>) -> ColorScheme {
    if theme == "system-dark"@ {
        ColorScheme::ForceDark
    } else if theme == "system-light"@ || theme == "newspaper"@ || theme == "parchment"@ {
        ColorScheme::ForceLight
    } else {
        ColorScheme::Default
    }
}

/// The color scheme that the theme `theme_id` asks for.
pub fn color_scheme_of(theme_id: &str) -> (r: ColorScheme)
    ensures
        r == scheme_of(theme_id@),
{
    let given = theme_id.to_owned();
    if given == "system-dark".to_owned() {
        ColorScheme::ForceDark
    } else if given == "system-light".to_owned() || given == "newspaper".to_owned() || given
        == "parchment".to_owned() {
        ColorScheme::ForceLight
    } else {
        ColorScheme::Default
    }
}

/// Where and as whom compositions are published.
#[derive(Debug, PartialEq, Eq)]
pub struct MicroblogSettings {
    pub endpoint: String,
    pub api_key: String,
    pub blog_id: Option<String>,
}

pub struct MicroblogSettingsView {
    pub endpoint: Seq<char>,
    pub api_key: Seq<char>,
    pub blog_id: Option<Seq<char>>,
}

impl View for MicroblogSettings {
    type V = MicroblogSettingsView;

    open spec fn view(&self) -> MicroblogSettingsView {
        MicroblogSettingsView {
            endpoint: self.endpoint@,
            api_key: self.api_key@,
            blog_id: opt_view(self.blog_id),
        }
    }
}

impl MicroblogSettingsView {
    /// Nothing to publish to.
    pub open spec fn empty() -> MicroblogSettingsView {
        MicroblogSettingsView { endpoint: Seq::empty(), api_key: Seq::empty(), blog_id: None }
    }
}

impl Default for MicroblogSettings {
    fn default() -> (r: Self)
        ensures
            r@ == MicroblogSettingsView::empty(),
    {
        MicroblogSettings { endpoint: String::new(), api_key: String::new(), blog_id: None }
    }
}

impl Duplicate for MicroblogSettings {
    fn duplicate(&self) -> (r: Self) {
        MicroblogSettings {
            endpoint: self.endpoint.clone(),
            api_key: self.api_key.clone(),
            blog_id: duplicate_opt(&self.blog_id),
        }
    }
}

impl Clone for MicroblogSettings {
    fn clone(&self) -> (r: Self)
        ensures
            r@ == self@,
    {
        self.duplicate()
    }
}

/// The application's settings. The line height is kept in tenths of the
/// font size.
#[derive(Debug, PartialEq, Eq)]
pub struct Settings {
    pub theme: String,
    pub font_size: i32,
    pub line_height_tenths: u32,
    pub microblog: MicroblogSettings,
    pub last_opened_composition: Option<String>,
}

pub struct SettingsView {
    pub theme: Seq<char>,
    pub font_size: i32,
    pub line_height_tenths: u32,
    pub microblog: MicroblogSettingsView,
    pub last_opened_composition: Option<Seq<char>>,
}

impl View for Settings {
    type V = SettingsView;

    open spec fn view(&self) -> SettingsView {
        SettingsView {
            theme: self.theme@,
            font_size: self.font_size,
            line_height_tenths: self.line_height_tenths,
            microblog: self.microblog@,
            last_opened_composition: opt_view(self.last_opened_composition),
        }
    }
}

impl SettingsView {
    /// The settings of a first start: the light theme, the editor's font
    /// metrics, nothing to publish to and nothing opened before.
    pub open spec fn initial() -> SettingsView {
        SettingsView {
            theme: "system-light"@,
            font_size: 18,
            line_height_tenths: 18,
            microblog: MicroblogSettingsView::empty(),
            last_opened_composition: None,
        }
    }
}

impl Default for Settings {
    fn default() -> (r: Self)
        ensures
            r@ == SettingsView::initial(),
    {
        Settings {
            theme: "system-light".to_owned(),
            font_size: EDITOR_FONT_SIZE,
            line_height_tenths: EDITOR_LINE_HEIGHT_TENTHS,
            microblog: MicroblogSettings::default(),
            last_opened_composition: None,
        }
    }
}

impl Duplicate for Settings {
    fn duplicate(&self) -> (r: Self) {
        Settings {
            theme: self.theme.clone(),
            font_size: self.font_size,
            line_height_tenths: self.line_height_tenths,
            microblog: self.microblog.duplicate(),
            last_opened_composition: duplicate_opt(&self.last_opened_composition),
        }
    }
}

impl Clone for Settings {
    fn clone(&self) -> (r: Self)
        ensures
            r@ == self@,
    {
        self.duplicate()
    }
}

impl Settings {
    /// Remembers the composition that was opened last.
    pub fn remember_opened(&mut self, id: &str)
        ensures
            final(self)@ == (SettingsView {
                last_opened_composition: Some(id@),
                ..old(self)@
            }),
    {
        self.last_opened_composition = Some(id.to_owned());
    }
}

} // verus!
