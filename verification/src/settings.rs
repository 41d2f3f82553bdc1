//! User settings: the theme.
use vstd::prelude::*;
use crate::value::{DecodeError, Value, ValueView, fields_of, optional, text_of};

verus! {

/// A color theme.
#[derive(Debug)]
pub enum Theme {
    Light,
    Dark,
    Dracula,
    Nord,
    SolarizedLight,
    SolarizedDark,
    GruvboxLight,
    GruvboxDark,
    CatppuccinLatte,
    CatppuccinFrappe,
    CatppuccinMacchiato,
    CatppuccinMocha,
    TokyoNight,
    TokyoNightStorm,
    TokyoNightLight,
    KanagawaWave,
    KanagawaDragon,
    KanagawaLotus,
    Moonfly,
    Nightfly,
    Oxocarbon,
    Ferra,
    Other(String),
}

/// The mathematical form of a [`Theme`].
pub enum ThemeView {
    Light,
    Dark,
    Dracula,
    Nord,
    SolarizedLight,
    SolarizedDark,
    GruvboxLight,
    GruvboxDark,
    CatppuccinLatte,
    CatppuccinFrappe,
    CatppuccinMacchiato,
    CatppuccinMocha,
    TokyoNight,
    TokyoNightStorm,
    TokyoNightLight,
    KanagawaWave,
    KanagawaDragon,
    KanagawaLotus,
    Moonfly,
    Nightfly,
    Oxocarbon,
    Ferra,
    Other(Seq<char>),
}

impl View for Theme {
    type V = ThemeView;

    open spec fn view(&self) -> ThemeView {
        match self {
            Theme::Light => ThemeView::Light,
            Theme::Dark => ThemeView::Dark,
            Theme::Dracula => ThemeView::Dracula,
            Theme::Nord => ThemeView::Nord,
            Theme::SolarizedLight => ThemeView::SolarizedLight,
            Theme::SolarizedDark => ThemeView::SolarizedDark,
            Theme::GruvboxLight => ThemeView::GruvboxLight,
            Theme::GruvboxDark => ThemeView::GruvboxDark,
            Theme::CatppuccinLatte => ThemeView::CatppuccinLatte,
            Theme::CatppuccinFrappe => ThemeView::CatppuccinFrappe,
            Theme::CatppuccinMacchiato => ThemeView::CatppuccinMacchiato,
            Theme::CatppuccinMocha => ThemeView::CatppuccinMocha,
            Theme::TokyoNight => ThemeView::TokyoNight,
            Theme::TokyoNightStorm => ThemeView::TokyoNightStorm,
            Theme::TokyoNightLight => ThemeView::TokyoNightLight,
            Theme::KanagawaWave => ThemeView::KanagawaWave,
            Theme::KanagawaDragon => ThemeView::KanagawaDragon,
            Theme::KanagawaLotus => ThemeView::KanagawaLotus,
            Theme::Moonfly => ThemeView::Moonfly,
            Theme::Nightfly => ThemeView::Nightfly,
            Theme::Oxocarbon => ThemeView::Oxocarbon,
            Theme::Ferra => ThemeView::Ferra,
            Theme::Other(s) => ThemeView::Other(s@),
        }
    }
}

/// The slug that names a theme in the settings file.
pub open spec fn slug_of(t: ThemeView) -> Seq<char> {
    match t {
        ThemeView::Light => "light"@,
        ThemeView::Dark => "dark"@,
        ThemeView::Dracula => "dracula"@,
        ThemeView::Nord => "nord"@,
        ThemeView::SolarizedLight => "solarized_light"@,
        ThemeView::SolarizedDark => "solarized_dark"@,
        ThemeView::GruvboxLight => "gruvbox_light"@,
        ThemeView::GruvboxDark => "gruvbox_dark"@,
        ThemeView::CatppuccinLatte => "catppuccin_latte"@,
        ThemeView::CatppuccinFrappe => "catppuccin_frappe"@,
        ThemeView::CatppuccinMacchiato => "catppuccin_macchiato"@,
        ThemeView::CatppuccinMocha => "catppuccin_mocha"@,
        ThemeView::TokyoNight => "tokyo_night"@,
        ThemeView::TokyoNightStorm => "tokyo_night_storm"@,
        ThemeView::TokyoNightLight => "tokyo_night_light"@,
        ThemeView::KanagawaWave => "kanagawa_wave"@,
        ThemeView::KanagawaDragon => "kanagawa_dragon"@,
        ThemeView::KanagawaLotus => "kanagawa_lotus"@,
        ThemeView::Moonfly => "moonfly"@,
        ThemeView::Nightfly => "nightfly"@,
        ThemeView::Oxocarbon => "oxocarbon"@,
        ThemeView::Ferra => "ferra"@,
        ThemeView::Other(s) => s,
    }
}

/// The theme that a slug names: the built-in theme with that slug, or
/// another theme of that name.
pub open spec fn theme_of_slug(s: Seq<char>) -> ThemeView {
    if s == "light"@ {
        ThemeView::Light
    } else if s == "dark"@ {
        ThemeView::Dark
    } else if s == "dracula"@ {
        ThemeView::Dracula
    } else if s == "nord"@ {
        ThemeView::Nord
    } else if s == "solarized_light"@ {
        ThemeView::SolarizedLight
    } else if s == "solarized_dark"@ {
        ThemeView::SolarizedDark
    } else if s == "gruvbox_light"@ {
        ThemeView::GruvboxLight
    } else if s == "gruvbox_dark"@ {
        ThemeView::GruvboxDark
    } else if s == "catppuccin_latte"@ {
        ThemeView::CatppuccinLatte
    } else if s == "catppuccin_frappe"@ {
        ThemeView::CatppuccinFrappe
    } else if s == "catppuccin_macchiato"@ {
        ThemeView::CatppuccinMacchiato
    } else if s == "catppuccin_mocha"@ {
        ThemeView::CatppuccinMocha
    } else if s == "tokyo_night"@ {
        ThemeView::TokyoNight
    } else if s == "tokyo_night_storm"@ {
        ThemeView::TokyoNightStorm
    } else if s == "tokyo_night_light"@ {
        ThemeView::TokyoNightLight
    } else if s == "kanagawa_wave"@ {
        ThemeView::KanagawaWave
    } else if s == "kanagawa_dragon"@ {
        ThemeView::KanagawaDragon
    } else if s == "kanagawa_lotus"@ {
        ThemeView::KanagawaLotus
    } else if s == "moonfly"@ {
        ThemeView::Moonfly
    } else if s == "nightfly"@ {
        ThemeView::Nightfly
    } else if s == "oxocarbon"@ {
        ThemeView::Oxocarbon
    } else if s == "ferra"@ {
        ThemeView::Ferra
    } else {
        ThemeView::Other(s)
    }
}

/// Whether `s` is the slug of a built-in theme.
pub open spec fn is_builtin_slug(s: Seq<char>) -> bool {
    !(theme_of_slug(s) is Other)
}

/// Decodes a theme from its slug.
pub open spec fn decode_theme(v: ValueView) -> Result<ThemeView, DecodeError> {
    match text_of(v) {
        Err(e) => Err(e),
        Ok(s) => Ok(theme_of_slug(s)),
    }
}

impl Default for Theme {
    fn default() -> (t: Theme)
        ensures
            t@ == ThemeView::CatppuccinMocha,
    {
        Theme::CatppuccinMocha
    }
}

impl Clone for Theme {
    fn clone(&self) -> (t: Theme)
        ensures
            t@ == self@,
    {
        match self {
            Theme::Light => Theme::Light,
            Theme::Dark => Theme::Dark,
            Theme::Dracula => Theme::Dracula,
            Theme::Nord => Theme::Nord,
            Theme::SolarizedLight => Theme::SolarizedLight,
            Theme::SolarizedDark => Theme::SolarizedDark,
            Theme::GruvboxLight => Theme::GruvboxLight,
            Theme::GruvboxDark => Theme::GruvboxDark,
            Theme::CatppuccinLatte => Theme::CatppuccinLatte,
            Theme::CatppuccinFrappe => Theme::CatppuccinFrappe,
            Theme::CatppuccinMacchiato => Theme::CatppuccinMacchiato,
            Theme::CatppuccinMocha => Theme::CatppuccinMocha,
            Theme::TokyoNight => Theme::TokyoNight,
            Theme::TokyoNightStorm => Theme::TokyoNightStorm,
            Theme::TokyoNightLight => Theme::TokyoNightLight,
            Theme::KanagawaWave => Theme::KanagawaWave,
            Theme::KanagawaDragon => Theme::KanagawaDragon,
            Theme::KanagawaLotus => Theme::KanagawaLotus,
            Theme::Moonfly => Theme::Moonfly,
            Theme::Nightfly => Theme::Nightfly,
            Theme::Oxocarbon => Theme::Oxocarbon,
            Theme::Ferra => Theme::Ferra,
            Theme::Other(s) => Theme::Other(s.clone()),
        }
    }
}

impl Theme {
    /// The slug of the theme.
    pub fn slug(&self) -> (s: &str)
        ensures
            s@ == slug_of(self@),
    {
        match self {
            Theme::Light => "light",
            Theme::Dark => "dark",
            Theme::Dracula => "dracula",
            Theme::Nord => "nord",
            Theme::SolarizedLight => "solarized_light",
            Theme::SolarizedDark => "solarized_dark",
            Theme::GruvboxLight => "gruvbox_light",
            Theme::GruvboxDark => "gruvbox_dark",
            Theme::CatppuccinLatte => "catppuccin_latte",
            Theme::CatppuccinFrappe => "catppuccin_frappe",
            Theme::CatppuccinMacchiato => "catppuccin_macchiato",
            Theme::CatppuccinMocha => "catppuccin_mocha",
            Theme::TokyoNight => "tokyo_night",
            Theme::TokyoNightStorm => "tokyo_night_storm",
            Theme::TokyoNightLight => "tokyo_night_light",
            Theme::KanagawaWave => "kanagawa_wave",
            Theme::KanagawaDragon => "kanagawa_dragon",
            Theme::KanagawaLotus => "kanagawa_lotus",
            Theme::Moonfly => "moonfly",
            Theme::Nightfly => "nightfly",
            Theme::Oxocarbon => "oxocarbon",
            Theme::Ferra => "ferra",
            Theme::Other(other) => other.as_str(),
        }
    }

    /// The theme that `slug` names.
    pub fn from_slug(slug: &str) -> (t: Theme)
        ensures
            t@ == theme_of_slug(slug@),
    {
        if crate::value::same_text(slug, "light") {
            Theme::Light
        } else if crate::value::same_text(slug, "dark") {
            Theme::Dark
        } else if crate::value::same_text(slug, "dracula") {
            Theme::Dracula
        } else if crate::value::same_text(slug, "nord") {
            Theme::Nord
        } else if crate::value::same_text(slug, "solarized_light") {
            Theme::SolarizedLight
        } else if crate::value::same_text(slug, "solarized_dark") {
            Theme::SolarizedDark
        } else if crate::value::same_text(slug, "gruvbox_light") {
            Theme::GruvboxLight
        } else if crate::value::same_text(slug, "gruvbox_dark") {
            Theme::GruvboxDark
        } else if crate::value::same_text(slug, "catppuccin_latte") {
            Theme::CatppuccinLatte
        } else if crate::value::same_text(slug, "catppuccin_frappe") {
            Theme::CatppuccinFrappe
        } else if crate::value::same_text(slug, "catppuccin_macchiato") {
            Theme::CatppuccinMacchiato
        } else if crate::value::same_text(slug, "catppuccin_mocha") {
            Theme::CatppuccinMocha
        } else if crate::value::same_text(slug, "tokyo_night") {
            Theme::TokyoNight
        } else if crate::value::same_text(slug, "tokyo_night_storm") {
            Theme::TokyoNightStorm
        } else if crate::value::same_text(slug, "tokyo_night_light") {
            Theme::TokyoNightLight
        } else if crate::value::same_text(slug, "kanagawa_wave") {
            Theme::KanagawaWave
        } else if crate::value::same_text(slug, "kanagawa_dragon") {
            Theme::KanagawaDragon
        } else if crate::value::same_text(slug, "kanagawa_lotus") {
            Theme::KanagawaLotus
        } else if crate::value::same_text(slug, "moonfly") {
            Theme::Moonfly
        } else if crate::value::same_text(slug, "nightfly") {
            Theme::Nightfly
        } else if crate::value::same_text(slug, "oxocarbon") {
            Theme::Oxocarbon
        } else if crate::value::same_text(slug, "ferra") {
            Theme::Ferra
        } else {
            Theme::Other(slug.to_owned())
        }
    }

    /// Decodes a theme from its slug.
    pub fn decode(value: &Value) -> (r: Result<Theme, DecodeError>)
        ensures
            r matches Ok(t) ==> decode_theme(value@) == Ok::<_, DecodeError>(t@),
            r matches Err(e) ==> decode_theme(value@) == Err::<ThemeView, _>(e),
    {
        match crate::value::text(value) {
            Ok(s) => Ok(Theme::from_slug(s.as_str())),
            Err(e) => Err(e),
        }
    }

    /// Encodes a theme as its slug.
    pub fn encode(&self) -> (v: Value)
        ensures
            v@ == ValueView::Text(slug_of(self@)),
    {
        crate::value::text_value(self.slug())
    }
}

proof fn lemma_slugs_distinct()
    ensures
        theme_of_slug("light"@) == ThemeView::Light,
        theme_of_slug("dark"@) == ThemeView::Dark,
        theme_of_slug("dracula"@) == ThemeView::Dracula,
        theme_of_slug("nord"@) == ThemeView::Nord,
        theme_of_slug("solarized_light"@) == ThemeView::SolarizedLight,
        theme_of_slug("solarized_dark"@) == ThemeView::SolarizedDark,
        theme_of_slug("gruvbox_light"@) == ThemeView::GruvboxLight,
        theme_of_slug("gruvbox_dark"@) == ThemeView::GruvboxDark,
        theme_of_slug("catppuccin_latte"@) == ThemeView::CatppuccinLatte,
        theme_of_slug("catppuccin_frappe"@) == ThemeView::CatppuccinFrappe,
        theme_of_slug("catppuccin_macchiato"@) == ThemeView::CatppuccinMacchiato,
        theme_of_slug("catppuccin_mocha"@) == ThemeView::CatppuccinMocha,
        theme_of_slug("tokyo_night"@) == ThemeView::TokyoNight,
        theme_of_slug("tokyo_night_storm"@) == ThemeView::TokyoNightStorm,
        theme_of_slug("tokyo_night_light"@) == ThemeView::TokyoNightLight,
        theme_of_slug("kanagawa_wave"@) == ThemeView::KanagawaWave,
        theme_of_slug("kanagawa_dragon"@) == ThemeView::KanagawaDragon,
        theme_of_slug("kanagawa_lotus"@) == ThemeView::KanagawaLotus,
        theme_of_slug("moonfly"@) == ThemeView::Moonfly,
        theme_of_slug("nightfly"@) == ThemeView::Nightfly,
        theme_of_slug("oxocarbon"@) == ThemeView::Oxocarbon,
        theme_of_slug("ferra"@) == ThemeView::Ferra,
{
    reveal_strlit("light");
    reveal_strlit("dark");
    reveal_strlit("dracula");
    reveal_strlit("nord");
    reveal_strlit("solarized_light");
    reveal_strlit("solarized_dark");
    reveal_strlit("gruvbox_light");
    reveal_strlit("gruvbox_dark");
    reveal_strlit("catppuccin_latte");
    reveal_strlit("catppuccin_frappe");
    reveal_strlit("catppuccin_macchiato");
    reveal_strlit("catppuccin_mocha");
    reveal_strlit("tokyo_night");
    reveal_strlit("tokyo_night_storm");
    reveal_strlit("tokyo_night_light");
    reveal_strlit("kanagawa_wave");
    reveal_strlit("kanagawa_dragon");
    reveal_strlit("kanagawa_lotus");
    reveal_strlit("moonfly");
    reveal_strlit("nightfly");
    reveal_strlit("oxocarbon");
    reveal_strlit("ferra");
    assert("light"@.len() == 5);
    assert("dark"@.len() == 4);
    assert("dracula"@.len() == 7);
    assert("nord"@.len() == 4);
    assert("solarized_light"@.len() == 15);
    assert("solarized_dark"@.len() == 14);
    assert("gruvbox_light"@.len() == 13);
    assert("gruvbox_dark"@.len() == 12);
    assert("catppuccin_latte"@.len() == 16);
    assert("catppuccin_frappe"@.len() == 17);
    assert("catppuccin_macchiato"@.len() == 20);
    assert("catppuccin_mocha"@.len() == 16);
    assert("tokyo_night"@.len() == 11);
    assert("tokyo_night_storm"@.len() == 17);
    assert("tokyo_night_light"@.len() == 17);
    assert("kanagawa_wave"@.len() == 13);
    assert("kanagawa_dragon"@.len() == 15);
    assert("kanagawa_lotus"@.len() == 14);
    assert("moonfly"@.len() == 7);
    assert("nightfly"@.len() == 8);
    assert("oxocarbon"@.len() == 9);
    assert("ferra"@.len() == 5);
    assert("nord"@[0] != "dark"@[0]);
    assert("catppuccin_mocha"@[11] != "catppuccin_latte"@[11]);
    assert("tokyo_night_storm"@[0] != "catppuccin_frappe"@[0]);
    assert("tokyo_night_light"@[0] != "catppuccin_frappe"@[0]);
    assert("tokyo_night_light"@[12] != "tokyo_night_storm"@[12]);
    assert("kanagawa_wave"@[0] != "gruvbox_light"@[0]);
    assert("kanagawa_dragon"@[0] != "solarized_light"@[0]);
    assert("kanagawa_lotus"@[0] != "solarized_dark"@[0]);
    assert("moonfly"@[0] != "dracula"@[0]);
    assert("ferra"@[0] != "light"@[0]);
}

/// A theme saved as its slug reads back as the theme, unless it is another
/// theme whose name is the slug of a built-in one.
pub proof fn lemma_theme_roundtrip(t: ThemeView)
    requires
        !(t matches ThemeView::Other(s) && is_builtin_slug(s)),
    ensures
        decode_theme(ValueView::Text(slug_of(t))) == Ok::<_, DecodeError>(t),
{
    lemma_slugs_distinct();
}

/// The theme of a settings document: the theme it names under `theme`, or
/// the default theme when it names none.
pub open spec fn settings_theme_of(v: ValueView) -> Result<ThemeView, DecodeError> {
    match fields_of(v) {
        Err(e) => Err(e),
        Ok(fields) => match optional(fields, "theme"@) {
            None => Ok(ThemeView::CatppuccinMocha),
            Some(t) => decode_theme(t),
        },
    }
}

/// Reads the theme of a settings document.
pub fn settings_theme(v: &Value) -> (r: Result<Theme, DecodeError>)
    ensures
        r matches Ok(t) ==> settings_theme_of(v@) == Ok::<_, DecodeError>(t@),
        r matches Err(e) ==> settings_theme_of(v@) == Err::<ThemeView, _>(e),
{
    let fields = match crate::value::fields(v) {
        Ok(f) => f,
        Err(e) => return Err(e),
    };
    match crate::value::optional_field(fields, "theme") {
        None => Ok(Theme::default()),
        Some(t) => Theme::decode(t),
    }
}

/// The settings document that holds `theme`.
pub fn settings_value(theme: &Theme) -> (v: Value)
    ensures
        v@ == ValueView::Fields(seq![("theme"@, ValueView::Text(slug_of(theme@)))]),
{
    let mut fields: Vec<(String, Value)> = Vec::new();
    fields.push(("theme".to_owned(), theme.encode()));
    proof {
        crate::value::lemma_field_views_of(fields@);
        assert(crate::value::field_views_of(fields@) =~= seq![
            ("theme"@, ValueView::Text(slug_of(theme@))),
        ]);
    }
    Value::Fields(fields)
}

/// A theme written to the settings and read back is the same theme, unless
/// it is another theme named like a built-in one.
pub proof fn lemma_settings_roundtrip(t: ThemeView)
    requires
        !(t matches ThemeView::Other(s) && is_builtin_slug(s)),
    ensures
        settings_theme_of(ValueView::Fields(seq![("theme"@, ValueView::Text(slug_of(t)))])) == Ok::<
            _,
            DecodeError,
        >(t),
{
    lemma_theme_roundtrip(t);
    let fields = seq![("theme"@, ValueView::Text(slug_of(t)))];
    assert(crate::value::lookup(fields, "theme"@) == Some(ValueView::Text(slug_of(t))));
}

/// Whether a theme is one of the built-in ones.
pub open spec fn is_builtin(t: ThemeView) -> bool {
    !(t is Other)
}

/// Whether `s` is a non-empty run of lowercase ASCII words joined by single
/// underscores.
pub open spec fn is_snake_case(s: Seq<char>) -> bool {
    &&& s.len() > 0
    &&& forall|i: int| 0 <= i < s.len() ==> ('a' <= #[trigger] s[i] && s[i] <= 'z') || s[i] == '_'
    &&& s[0] != '_'
    &&& s[s.len() - 1] != '_'
    &&& forall|i: int| 0 <= i < s.len() - 1 && #[trigger] s[i] == '_' ==> s[i + 1] != '_'
}

proof fn lemma_slug_shape(t: ThemeView)
    requires
        is_builtin(t),
    ensures
        is_snake_case(slug_of(t)),
{
    reveal_strlit("light");
    reveal_strlit("dark");
    reveal_strlit("dracula");
    reveal_strlit("nord");
    reveal_strlit("solarized_light");
    reveal_strlit("solarized_dark");
    reveal_strlit("gruvbox_light");
    reveal_strlit("gruvbox_dark");
    reveal_strlit("catppuccin_latte");
    reveal_strlit("catppuccin_frappe");
    reveal_strlit("catppuccin_macchiato");
    reveal_strlit("catppuccin_mocha");
    reveal_strlit("tokyo_night");
    reveal_strlit("tokyo_night_storm");
    reveal_strlit("tokyo_night_light");
    reveal_strlit("kanagawa_wave");
    reveal_strlit("kanagawa_dragon");
    reveal_strlit("kanagawa_lotus");
    reveal_strlit("moonfly");
    reveal_strlit("nightfly");
    reveal_strlit("oxocarbon");
    reveal_strlit("ferra");
}

/// The slugs of the built-in themes are non-empty lowercase ASCII words
/// joined by underscores, and no two built-in themes share one; another
/// theme's slug is its name.
pub proof fn lemma_slugs(a: ThemeView, b: ThemeView, name: Seq<char>)
    ensures
        is_builtin(a) ==> is_snake_case(slug_of(a)),
        is_builtin(a) && is_builtin(b) ==> (slug_of(a) == slug_of(b) <==> a == b),
        slug_of(ThemeView::Other(name)) == name,
{
    if is_builtin(a) {
        lemma_slug_shape(a);
        if is_builtin(b) {
            lemma_theme_roundtrip(a);
            lemma_theme_roundtrip(b);
        }
    }
}

} // verus!