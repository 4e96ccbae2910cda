use tone_mark::config::AppConfig;
use tone_mark::theme::PaletteId;

#[test]
fn default_config() {
    let c = AppConfig::default();
    assert!(c.library_path.is_none());
    assert_eq!(c.palette, PaletteId::Amber);
}

#[test]
fn parse_config_reads_both_members() {
    let c = AppConfig::parse(r#"{"library_path": "/home/me/patches", "palette": "lime"}"#);
    assert_eq!(c.library_path.as_deref(), Some("/home/me/patches"));
    assert_eq!(c.palette, PaletteId::Lime);
}

#[test]
fn parse_config_with_odd_members() {
    let c = AppConfig::parse(r#"{"library_path": 4, "palette": "mauve"}"#);
    assert!(c.library_path.is_none());
    assert_eq!(c.palette, PaletteId::Amber);
    let c = AppConfig::parse("[1, 2]");
    assert!(c.library_path.is_none());
    assert_eq!(c.palette, PaletteId::Amber);
}

#[test]
fn parse_invalid_config_gives_default() {
    let c = AppConfig::parse("{{{");
    assert!(c.library_path.is_none());
    assert_eq!(c.palette, PaletteId::Amber);
}

#[test]
fn saved_config_reads_back() {
    let c = AppConfig { library_path: Some("/x/y".to_string()), palette: PaletteId::Pink };
    let text = c.to_json_string();
    let back = AppConfig::parse(&text);
    assert_eq!(back.library_path.as_deref(), Some("/x/y"));
    assert_eq!(back.palette, PaletteId::Pink);
    let c = AppConfig { library_path: None, palette: PaletteId::Violet };
    let text = c.to_json_string();
    assert!(text.contains("null"));
    let back = AppConfig::parse(&text);
    assert!(back.library_path.is_none());
    assert_eq!(back.palette, PaletteId::Violet);
}
