use icebreaker::settings::{settings_theme, settings_value, Theme};
use icebreaker::value::{DecodeError, Value};

fn builtins() -> Vec<Theme> {
    vec![
        Theme::Light,
        Theme::Dark,
        Theme::Dracula,
        Theme::Nord,
        Theme::SolarizedLight,
        Theme::SolarizedDark,
        Theme::GruvboxLight,
        Theme::GruvboxDark,
        Theme::CatppuccinLatte,
        Theme::CatppuccinFrappe,
        Theme::CatppuccinMacchiato,
        Theme::CatppuccinMocha,
        Theme::TokyoNight,
        Theme::TokyoNightStorm,
        Theme::TokyoNightLight,
        Theme::KanagawaWave,
        Theme::KanagawaDragon,
        Theme::KanagawaLotus,
        Theme::Moonfly,
        Theme::Nightfly,
        Theme::Oxocarbon,
        Theme::Ferra,
    ]
}

#[test]
fn theme_slugs_are_the_settings_names() {
    assert_eq!(Theme::Light.slug(), "light");
    assert_eq!(Theme::SolarizedDark.slug(), "solarized_dark");
    assert_eq!(Theme::CatppuccinMacchiato.slug(), "catppuccin_macchiato");
    assert_eq!(Theme::TokyoNightStorm.slug(), "tokyo_night_storm");
    assert_eq!(Theme::Ferra.slug(), "ferra");
    assert_eq!(Theme::Other("mine".to_owned()).slug(), "mine");
}

#[test]
fn every_builtin_theme_reads_back_after_saving() {
    for theme in builtins() {
        let encoded = theme.encode();
        let decoded = Theme::decode(&encoded).unwrap();
        assert_eq!(decoded.slug(), theme.slug());
        assert!(!matches!(decoded, Theme::Other(_)), "{:?}", theme);
    }
}

#[test]
fn slugs_of_builtin_themes_are_distinct() {
    let themes = builtins();
    let slugs: Vec<&str> = themes.iter().map(|t| t.slug()).collect();
    for (i, a) in slugs.iter().enumerate() {
        for b in slugs.iter().skip(i + 1) {
            assert_ne!(a, b);
        }
    }
}

#[test]
fn unknown_slug_is_another_theme() {
    let theme = Theme::from_slug("solarized");
    assert!(matches!(theme, Theme::Other(ref s) if s == "solarized"));
    let encoded = theme.encode();
    assert!(matches!(encoded, Value::Text(ref s) if s == "solarized"));
}

#[test]
fn another_theme_named_like_a_builtin_reads_back_as_the_builtin() {
    let theme = Theme::Other("nord".to_owned());
    let decoded = Theme::decode(&theme.encode()).unwrap();
    assert!(matches!(decoded, Theme::Nord));
}

#[test]
fn theme_decode_needs_text() {
    assert_eq!(Theme::decode(&Value::Unsigned(3)).unwrap_err(), DecodeError::InvalidType);
    assert_eq!(Theme::decode(&Value::Null).unwrap_err(), DecodeError::InvalidType);
}

#[test]
fn default_theme_is_catppuccin_mocha() {
    assert!(matches!(Theme::default(), Theme::CatppuccinMocha));
    let copy = Theme::Other("x".to_owned()).clone();
    assert_eq!(copy.slug(), "x");
}

#[test]
fn settings_document_holds_the_theme() {
    let document = settings_value(&Theme::Nord);
    assert!(matches!(settings_theme(&document), Ok(Theme::Nord)));
    let empty = Value::Fields(vec![("library".to_owned(), Value::Text("/models".to_owned()))]);
    assert!(matches!(settings_theme(&empty), Ok(Theme::CatppuccinMocha)));
    let null = Value::Fields(vec![("theme".to_owned(), Value::Null)]);
    assert!(matches!(settings_theme(&null), Ok(Theme::CatppuccinMocha)));
    let wrong = Value::Fields(vec![("theme".to_owned(), Value::Bool(true))]);
    assert_eq!(settings_theme(&wrong).unwrap_err(), DecodeError::InvalidType);
    assert_eq!(settings_theme(&Value::Null).unwrap_err(), DecodeError::InvalidType);
}

#[test]
fn builtin_slugs_are_lowercase_words_joined_by_underscores() {
    for theme in builtins() {
        let slug = theme.slug();
        assert!(!slug.is_empty());
        assert!(slug.chars().all(|c| c.is_ascii_lowercase() || c == '_'));
        assert!(!slug.starts_with('_') && !slug.ends_with('_'));
    }
}
