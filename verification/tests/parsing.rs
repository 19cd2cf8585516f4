use tinywind::area::generate_variant;
use tinywind::area::get_area;
use tinywind::area::get_property;
use tinywind::area::Area;
use tinywind::buffer::RuleBuffer;
use tinywind::config::Mode;
use tinywind::css::Css;
use tinywind::document::Doc;
use tinywind::generate::handle_prefix;
use tinywind::generate::write_css;
use tinywind::parser::parse;
use tinywind::parser::parse_doc;
use tinywind::parser::ConfigError;
use tinywind::scan;
use tinywind::utils::EscapeClassName;

#[test]
fn test_parse_syntax_error() {
    assert_eq!(parse("this is not a document").unwrap_err(), ConfigError::Syntax);
    assert_eq!(parse("{\"font_size\": ").unwrap_err(), ConfigError::Syntax);
}

#[test]
fn test_parse_not_a_table() {
    assert_eq!(parse("[1, 2, 3]").unwrap_err(), ConfigError::NotATable);
    assert_eq!(parse("\"just text\"").unwrap_err(), ConfigError::NotATable);
}

#[test]
fn test_parse_missing_font_size() {
    assert_eq!(
        parse("{\"color\": {\"white\": \"#fff\"}}").unwrap_err(),
        ConfigError::MissingFontSize
    );
    // a font_size that is not a table counts as missing
    assert_eq!(
        parse("{\"font_size\": 3, \"color\": {}}").unwrap_err(),
        ConfigError::MissingFontSize
    );
}

#[test]
fn test_parse_missing_color() {
    assert_eq!(
        parse("{\"font_size\": {}}").unwrap_err(),
        ConfigError::MissingColor
    );
    assert_eq!(
        parse("{\"font_size\": {}, \"color\": \"#fff\"}").unwrap_err(),
        ConfigError::MissingColor
    );
}

#[test]
fn test_parse_malformed_font_size() {
    // the pair's first element must be text
    assert_eq!(
        parse("{\"font_size\": {\"xs\": [1, {\"lineHeight\": 1}]}, \"color\": {}}").unwrap_err(),
        ConfigError::MalformedFontSize
    );
    // the line-height must be an integer or text
    assert_eq!(
        parse("{\"font_size\": {\"xs\": [\"1rem\", {\"lineHeight\": []}]}, \"color\": {}}")
            .unwrap_err(),
        ConfigError::MalformedFontSize
    );
    // the entry must be a pair at all
    assert_eq!(
        parse("{\"font_size\": {\"xs\": \"1rem\"}, \"color\": {}}").unwrap_err(),
        ConfigError::MalformedFontSize
    );
}

#[test]
fn test_parse_numeric_line_height() {
    let config = parse(
        "{\"font_size\": {\"big\": [\"3rem\", {\"lineHeight\": 1}], \
         \"huge\": [\"4rem\", {\"lineHeight\": -2}]}, \"color\": {}}",
    )
    .unwrap();
    let f = config.get_font_size("big").unwrap();
    assert_eq!(f.value.as_str(), "3rem");
    assert_eq!(f.line_height.as_str(), "1");
    let f = config.get_font_size("huge").unwrap();
    assert_eq!(f.line_height.as_str(), "-2");
}

#[test]
fn test_parse_doc_directly() {
    // the same store can be built from a hand-made document tree
    let doc = Doc::Table(vec![
        (
            "font_size".to_string(),
            Doc::Table(vec![(
                "lg".to_string(),
                Doc::List(vec![
                    Doc::Text("1.125rem".to_string()),
                    Doc::Table(vec![("lineHeight".to_string(), Doc::Text("1.75rem".to_string()))]),
                ]),
            )]),
        ),
        (
            "color".to_string(),
            Doc::Table(vec![("white".to_string(), Doc::Text("#fff".to_string()))]),
        ),
    ]);
    let config = parse_doc(&doc).unwrap();
    let f = config.get_font_size("lg").unwrap();
    assert_eq!(f.value.as_str(), "1.125rem");
    assert_eq!(f.line_height.as_str(), "1.75rem");
    let white = config.get_color_str("white").unwrap();
    assert_eq!(white.as_str(), "#fff");
    assert!(config.get_color_map("white").is_none());
}

#[test]
fn test_empty_categories_resolve_nothing() {
    let config = parse("{\"font_size\": {}, \"color\": {}}").unwrap();
    let buf = RuleBuffer::new();
    let source = vec!["text-lg".to_string(), "mt-4".to_string(), "flex".to_string()];
    let buf = write_css(buf, &config, &source);
    assert_eq!(buf.into_rules().len(), 0);
}

#[test]
fn test_get_key_name() {
    // two segments
    let (key, name, neg) = Css::<RuleBuffer>::get_key_name("mt-4");
    assert_eq!((key.as_str(), name.as_str(), neg), ("4", "mt", false));
    // negative two segments
    let (key, name, neg) = Css::<RuleBuffer>::get_key_name("-mt-4");
    assert_eq!((key.as_str(), name.as_str(), neg), ("4", "-mt", true));
    // compound family
    let (key, name, neg) = Css::<RuleBuffer>::get_key_name("break-after-auto");
    assert_eq!((key.as_str(), name.as_str(), neg), ("auto", "break-after", false));
    // negative compound family
    let (key, name, neg) = Css::<RuleBuffer>::get_key_name("-a-b-c");
    assert_eq!((key.as_str(), name.as_str(), neg), ("c", "-a-b", true));
    // single word
    let (key, name, neg) = Css::<RuleBuffer>::get_key_name("flex");
    assert_eq!((key.as_str(), name.as_str(), neg), ("flex", "flex", false));
    // any other shape keeps the whole token as the name
    let (key, name, neg) = Css::<RuleBuffer>::get_key_name("a-b-c-d");
    assert_eq!((key.as_str(), name.as_str(), neg), ("d", "a-b-c-d", false));
}

#[test]
fn test_escape_class_name() {
    assert_eq!("basis-0.5".escape_class_name().as_str(), "basis-0\\.5");
    assert_eq!("basis-1/2".to_string().escape_class_name().as_str(), "basis-1\\/2");
    assert_eq!("plain-name".escape_class_name().as_str(), "plain-name");
    assert_eq!("a.b/c".escape_class_name().as_str(), "a\\.b\\/c");
}

#[test]
fn test_handle_prefix() {
    assert_eq!(handle_prefix("leading-4", "leading").unwrap().as_str(), "leading");
    assert!(handle_prefix("leading", "leading").is_none());
    assert!(handle_prefix("lead-4", "leading").is_none());
}

#[test]
fn test_get_property_and_area() {
    assert_eq!(get_property("mt"), Some("margin"));
    assert_eq!(get_property("px"), Some("padding"));
    assert_eq!(get_property("x"), None);
    assert_eq!(get_area("m"), Area::All);
    assert_eq!(get_area("mt"), Area::Top);
    assert_eq!(get_area("pb"), Area::Bottom);
    assert_eq!(get_area("ml"), Area::Left);
    assert_eq!(get_area("pr"), Area::Right);
    assert_eq!(get_area("mx"), Area::Horizontal);
    assert_eq!(get_area("py"), Area::Vertical);
    assert_eq!(get_area("mq"), Area::Unknown);
}

#[test]
fn test_generate_variant() {
    assert_eq!(
        generate_variant("m", "4", "1rem").unwrap().as_str(),
        ".m {\n\tmargin: 1rem;\n}"
    );
    assert_eq!(
        generate_variant("mt", "4", "1rem").unwrap().as_str(),
        ".mt-4 {\n\tmargin-top: 1rem;\n}"
    );
    assert_eq!(
        generate_variant("px", "2", "0.5rem").unwrap().as_str(),
        ".px-2 {\n\tpadding-left: 0.5rem;\n\tpadding-right: 0.5rem;\n}"
    );
    assert_eq!(
        generate_variant("my", "2", "0.5rem").unwrap().as_str(),
        ".my-2 {\n\tmargin-top: 0.5rem;\n\tmargin-bottom: 0.5rem;\n}"
    );
    assert!(generate_variant("q", "4", "1rem").is_none());
    assert!(generate_variant("mq", "4", "1rem").is_none());
}

#[test]
fn test_scan_push() {
    let mut css = scan::Css::new();
    css.push("flex mt-4  text-lg");
    css.push("flex basis-1/2\n\tmt-4");
    let tokens: Vec<&str> = css.source.iter().map(|s| s.as_str()).collect();
    assert_eq!(tokens, vec!["flex", "mt-4", "text-lg", "basis-1/2"]);
}

#[test]
fn test_plugin_modes() {
    // a table built with negatives registers each key twice
    let doc = Doc::Table(vec![(
        "plugins".to_string(),
        Doc::Table(vec![(
            "margin".to_string(),
            Doc::List(vec![Doc::List(vec![
                Doc::Text("mt".to_string()),
                Doc::List(vec![Doc::Text("margin-top".to_string())]),
            ])]),
        )]),
    )]);
    let with_negative =
        tinywind::parser::create_utility("margin", &doc, Mode::WithNegative).unwrap();
    let keys: Vec<&str> = with_negative.iter().map(|e| e.0.as_str()).collect();
    assert_eq!(keys, vec!["mt", "-mt"]);
    assert_eq!(with_negative[0].1, with_negative[1].1);
    let only_positive =
        tinywind::parser::create_utility("margin", &doc, Mode::OnlyPositive).unwrap();
    let keys: Vec<&str> = only_positive.iter().map(|e| e.0.as_str()).collect();
    assert_eq!(keys, vec!["mt"]);
}
