use tinywind::buffer::RuleBuffer;
use tinywind::config::Config;
use tinywind::generate::write_css;
use tinywind::parser::parse;

const DEFAULT_CONFIG: &str = r##"{
  "font_size": {
    "xs": ["0.75rem", {"lineHeight": " 1rem"}],
    "sm": ["0.875rem", {"lineHeight": "1.25rem"}],
    "base": ["1rem", {"lineHeight": "1.5rem"}],
    "lg": ["1.125rem", {"lineHeight": "1.75rem"}],
    "xl": ["1.25rem", {"lineHeight": "1.75rem"}],
    "2xl": ["1.5rem", {"lineHeight": "2rem"}],
    "3xl": ["1.875rem", {"lineHeight": "2.25rem"}],
    "4xl": ["2.25rem", {"lineHeight": "2.5rem"}],
    "5xl": ["3rem", {"lineHeight": 1}],
    "6xl": ["3.75rem", {"lineHeight": 1}],
    "7xl": ["4.5rem", {"lineHeight": 1}],
    "8xl": ["6rem", {"lineHeight": 1}],
    "9xl": ["8rem", {"lineHeight": 1}]
  },
  "font_weight": {
    "thin": "100",
    "normal": "400",
    "bold": "700",
    "black": "900"
  },
  "lineHeight": {
    "none": "1",
    "tight": "1.25",
    "6": "1.5rem",
    "7": "1.75rem"
  },
  "color": {
    "white": "#fff",
    "black": "#000",
    "red": {
      "500": "#ef4444",
      "900": "#7f1d1d"
    },
    "blue": {
      "500": "#3b82f6"
    }
  },
  "aspectRatio": {
    "auto": "auto",
    "square": "1 / 1",
    "video": "16 / 9"
  },
  "spacing": {
    "0": "0px",
    "px": "1px",
    "0.5": "0.125rem",
    "1": "0.25rem",
    "1.5": "0.375rem",
    "2": "0.5rem",
    "2.5": "0.625rem",
    "3": "0.75rem",
    "3.5": "0.875rem",
    "4": "1rem",
    "5": "1.25rem",
    "6": "1.5rem",
    "7": "1.75rem",
    "8": "2rem",
    "9": "2.25rem",
    "10": "2.5rem",
    "11": "2.75rem",
    "12": "3rem",
    "14": "3.5rem",
    "16": "4rem",
    "20": "5rem",
    "24": "6rem",
    "28": "7rem",
    "32": "8rem",
    "36": "9rem",
    "40": "10rem",
    "44": "11rem",
    "48": "12rem",
    "52": "13rem",
    "56": "14rem",
    "60": "15rem",
    "64": "16rem",
    "72": "18rem",
    "80": "20rem",
    "96": "24rem"
  },
  "basis": {
    "auto": "auto",
    "full": "100%",
    "1/2": "50%",
    "1/3": "33.333333%",
    "2/3": "66.666667%"
  },
  "margin": {
    "auto": "auto"
  },
  "width": {
    "auto": "auto",
    "full": "100%"
  },
  "columns": {
    ".columns-1": {"columns": "1"},
    ".columns-2": {"columns": "2"},
    ".columns-3": {"columns": "3"},
    ".columns-4": {"columns": "4"},
    ".columns-5": {"columns": "5"},
    ".columns-6": {"columns": "6"},
    ".columns-7": {"columns": "7"},
    ".columns-8": {"columns": "8"},
    ".columns-9": {"columns": "9"},
    ".columns-10": {"columns": "10"},
    ".columns-11": {"columns": "11"},
    ".columns-12": {"columns": "12"},
    ".columns-auto": {"columns": "auto"},
    ".columns-2xs": {"columns": "18rem"},
    ".columns-3xs": {"columns": "16rem"},
    ".columns-xs": {"columns": "20rem"},
    ".columns-sm": {"columns": "24rem"},
    ".columns-md": {"columns": "28rem"},
    ".columns-lg": {"columns": "32rem"},
    ".columns-xl": {"columns": "36rem"},
    ".columns-2xl": {"columns": "42rem"},
    ".columns-3xl": {"columns": "48rem"},
    ".columns-4xl": {"columns": "56rem"},
    ".columns-5xl": {"columns": "64rem"},
    ".columns-6xl": {"columns": "72rem"},
    ".columns-7xl": {"columns": "80rem"}
  },
  "break-after": {
    ".break-after-auto": {"break-after": "auto"},
    ".break-after-avoid": {"break-after": "avoid"},
    ".break-after-all": {"break-after": "all"},
    ".break-after-avoid-page": {"break-after": "avoid-page"},
    ".break-after-page": {"break-after": "page"},
    ".break-after-column": {"break-after": "column"},
    ".break-after-left": {"break-after": "left"},
    ".break-after-right": {"break-after": "right"}
  },
  "break-before": {
    ".break-before-auto": {"break-before": "auto"},
    ".break-before-avoid": {"break-before": "avoid"},
    ".break-before-all": {"break-before": "all"},
    ".break-before-avoid-page": {"break-before": "avoid-page"},
    ".break-before-page": {"break-before": "page"},
    ".break-before-column": {"break-before": "column"},
    ".break-before-left": {"break-before": "left"},
    ".break-before-right": {"break-before": "right"}
  },
  "break-inside": {
    ".break-inside-auto": {"break-inside": "auto"},
    ".break-inside-avoid": {"break-inside": "avoid"},
    ".break-inside-all": {"break-inside": "all"},
    ".break-inside-avoid-page": {"break-inside": "avoid-page"},
    ".break-inside-page": {"break-inside": "page"},
    ".break-inside-column": {"break-inside": "column"},
    ".break-inside-left": {"break-inside": "left"},
    ".break-inside-right": {"break-inside": "right"}
  },
  "flex": {
    ".flex-1": {"flex": "1 1 0%"},
    ".flex-auto": {"flex": "1 1 auto"},
    ".flex-initial": {"flex": "0 1 auto"},
    ".flex-none": {"flex": "none"}
  },
  "flex-direction": {
    ".flex-row": {"flex-direction": "row"},
    ".flex-row-reverse": {"flex-direction": "row-reverse"},
    ".flex-col": {"flex-direction": "column"},
    ".flex-col-reverse": {"flex-direction": "column-reverse"}
  },
  "flex-wrap": {
    ".flex-wrap": {"flex-wrap": "wrap"},
    ".flex-wrap-reverse": {"flex-wrap": "wrap-reverse"},
    ".flex-nowrap": {"flex-wrap": "nowrap"}
  },
  "display": {
    ".block": {"display": "block"},
    ".flex": {"display": "flex"},
    ".hidden": {"display": "none"}
  },
  "plugins": {
    "margin": [[["m", ["margin"]], ["mx", ["margin-left", "margin-right"]], ["my", ["margin-top", "margin-bottom"]], ["mt", ["margin-top"]], ["mr", ["margin-right"]], ["mb", ["margin-bottom"]], ["ml", ["margin-left"]]]],
    "padding": [["p", ["padding"]], ["px", ["padding-left", "padding-right"]], ["py", ["padding-top", "padding-bottom"]], ["pt", ["padding-top"]], ["pr", ["padding-right"]], ["pb", ["padding-bottom"]], ["pl", ["padding-left"]]],
    "width": [["w", ["width"]], ["width", ["width"]]],
    "height": [["h", ["height"]]],
    "inset": [["inset", ["top", "right", "bottom", "left"]], ["top", ["top"]], ["right", ["right"]], ["bottom", ["bottom"]], ["left", ["left"]]],
    "z_index": [["z", ["z-index"]]],
    "basis": [["basis", ["flex-basis"]]]
  }
}"##;

fn default_config() -> Config {
    parse(DEFAULT_CONFIG).unwrap()
}

fn resolve_all(config: &Config, classes: &[&str]) -> Vec<String> {
    let source: Vec<String> = classes.iter().map(|s| s.to_string()).collect();
    let buf = RuleBuffer::new();
    let buf = write_css(buf, config, &source);
    buf.into_rules()
}

fn check_single(config: &Config, cases: &[(&str, &str)]) {
    for (class, expected) in cases {
        let rules = resolve_all(config, &[class]);
        assert_eq!(rules.len(), 1, "one rule expected for {}", class);
        assert_eq!(rules[0].as_str(), *expected);
    }
}

#[test]
fn test_aspect_ratio() {
    let config_set = default_config();
    let test_case = vec![
        ("aspect-auto", ".aspect-auto {\n\taspect-ratio: auto;\n}"),
        ("aspect-square", ".aspect-square {\n\taspect-ratio: 1 / 1;\n}"),
        ("aspect-video", ".aspect-video {\n\taspect-ratio: 16 / 9;\n}"),
    ];
    check_single(&config_set, &test_case);
}

#[test]
fn test_columns() {
    let config_set = default_config();
    let test_case = vec![
        ("columns-1", ".columns-1 {\n\tcolumns: 1;\n}"),
        ("columns-2", ".columns-2 {\n\tcolumns: 2;\n}"),
        ("columns-3", ".columns-3 {\n\tcolumns: 3;\n}"),
        ("columns-4", ".columns-4 {\n\tcolumns: 4;\n}"),
        ("columns-5", ".columns-5 {\n\tcolumns: 5;\n}"),
        ("columns-6", ".columns-6 {\n\tcolumns: 6;\n}"),
        ("columns-7", ".columns-7 {\n\tcolumns: 7;\n}"),
        ("columns-8", ".columns-8 {\n\tcolumns: 8;\n}"),
        ("columns-9", ".columns-9 {\n\tcolumns: 9;\n}"),
        ("columns-10", ".columns-10 {\n\tcolumns: 10;\n}"),
        ("columns-11", ".columns-11 {\n\tcolumns: 11;\n}"),
        ("columns-12", ".columns-12 {\n\tcolumns: 12;\n}"),
        ("columns-auto", ".columns-auto {\n\tcolumns: auto;\n}"),
        ("columns-2xs", ".columns-2xs {\n\tcolumns: 18rem;\n}"),
        ("columns-3xs", ".columns-3xs {\n\tcolumns: 16rem;\n}"),
        ("columns-xs", ".columns-xs {\n\tcolumns: 20rem;\n}"),
        ("columns-sm", ".columns-sm {\n\tcolumns: 24rem;\n}"),
        ("columns-md", ".columns-md {\n\tcolumns: 28rem;\n}"),
        ("columns-lg", ".columns-lg {\n\tcolumns: 32rem;\n}"),
        ("columns-xl", ".columns-xl {\n\tcolumns: 36rem;\n}"),
        ("columns-2xl", ".columns-2xl {\n\tcolumns: 42rem;\n}"),
        ("columns-3xl", ".columns-3xl {\n\tcolumns: 48rem;\n}"),
        ("columns-4xl", ".columns-4xl {\n\tcolumns: 56rem;\n}"),
        ("columns-5xl", ".columns-5xl {\n\tcolumns: 64rem;\n}"),
        ("columns-6xl", ".columns-6xl {\n\tcolumns: 72rem;\n}"),
        ("columns-7xl", ".columns-7xl {\n\tcolumns: 80rem;\n}"),
    ];
    check_single(&config_set, &test_case);
}

#[test]
fn test_break_after() {
    let config_set = default_config();
    let test_case = vec![
        ("break-after-auto", ".break-after-auto {\n\tbreak-after: auto;\n}"),
        ("break-after-avoid", ".break-after-avoid {\n\tbreak-after: avoid;\n}"),
        ("break-after-all", ".break-after-all {\n\tbreak-after: all;\n}"),
        (
            "break-after-avoid-page",
            ".break-after-avoid-page {\n\tbreak-after: avoid-page;\n}",
        ),
        ("break-after-page", ".break-after-page {\n\tbreak-after: page;\n}"),
        ("break-after-column", ".break-after-column {\n\tbreak-after: column;\n}"),
        ("break-after-left", ".break-after-left {\n\tbreak-after: left;\n}"),
        ("break-after-right", ".break-after-right {\n\tbreak-after: right;\n}"),
    ];
    check_single(&config_set, &test_case);
}

#[test]
fn test_break_before() {
    let config_set = default_config();
    let test_case = vec![
        ("break-before-auto", ".break-before-auto {\n\tbreak-before: auto;\n}"),
        ("break-before-avoid", ".break-before-avoid {\n\tbreak-before: avoid;\n}"),
        ("break-before-all", ".break-before-all {\n\tbreak-before: all;\n}"),
        (
            "break-before-avoid-page",
            ".break-before-avoid-page {\n\tbreak-before: avoid-page;\n}",
        ),
        ("break-before-page", ".break-before-page {\n\tbreak-before: page;\n}"),
        (
            "break-before-column",
            ".break-before-column {\n\tbreak-before: column;\n}",
        ),
        ("break-before-left", ".break-before-left {\n\tbreak-before: left;\n}"),
        ("break-before-right", ".break-before-right {\n\tbreak-before: right;\n}"),
    ];
    check_single(&config_set, &test_case);
}

#[test]
fn test_break_inside() {
    let config_set = default_config();
    let test_case = vec![
        ("break-inside-auto", ".break-inside-auto {\n\tbreak-inside: auto;\n}"),
        ("break-inside-avoid", ".break-inside-avoid {\n\tbreak-inside: avoid;\n}"),
        ("break-inside-all", ".break-inside-all {\n\tbreak-inside: all;\n}"),
        (
            "break-inside-avoid-page",
            ".break-inside-avoid-page {\n\tbreak-inside: avoid-page;\n}",
        ),
        ("break-inside-page", ".break-inside-page {\n\tbreak-inside: page;\n}"),
        (
            "break-inside-column",
            ".break-inside-column {\n\tbreak-inside: column;\n}",
        ),
        ("break-inside-left", ".break-inside-left {\n\tbreak-inside: left;\n}"),
        ("break-inside-right", ".break-inside-right {\n\tbreak-inside: right;\n}"),
    ];
    check_single(&config_set, &test_case);
}

#[test]
fn test_flex_basis() {
    let config_set = default_config();
    let test_case = vec![
        ("basis-0", ".basis-0 {\n\tflex-basis: 0px;\n}"),
        ("basis-1", ".basis-1 {\n\tflex-basis: 0.25rem;\n}"),
        ("basis-2", ".basis-2 {\n\tflex-basis: 0.5rem;\n}"),
        ("basis-3", ".basis-3 {\n\tflex-basis: 0.75rem;\n}"),
        ("basis-4", ".basis-4 {\n\tflex-basis: 1rem;\n}"),
        ("basis-5", ".basis-5 {\n\tflex-basis: 1.25rem;\n}"),
        ("basis-6", ".basis-6 {\n\tflex-basis: 1.5rem;\n}"),
        ("basis-7", ".basis-7 {\n\tflex-basis: 1.75rem;\n}"),
        ("basis-8", ".basis-8 {\n\tflex-basis: 2rem;\n}"),
        ("basis-9", ".basis-9 {\n\tflex-basis: 2.25rem;\n}"),
        ("basis-10", ".basis-10 {\n\tflex-basis: 2.5rem;\n}"),
        ("basis-11", ".basis-11 {\n\tflex-basis: 2.75rem;\n}"),
        ("basis-12", ".basis-12 {\n\tflex-basis: 3rem;\n}"),
        ("basis-14", ".basis-14 {\n\tflex-basis: 3.5rem;\n}"),
        ("basis-16", ".basis-16 {\n\tflex-basis: 4rem;\n}"),
        ("basis-20", ".basis-20 {\n\tflex-basis: 5rem;\n}"),
        ("basis-24", ".basis-24 {\n\tflex-basis: 6rem;\n}"),
        ("basis-28", ".basis-28 {\n\tflex-basis: 7rem;\n}"),
        ("basis-32", ".basis-32 {\n\tflex-basis: 8rem;\n}"),
        ("basis-36", ".basis-36 {\n\tflex-basis: 9rem;\n}"),
        ("basis-40", ".basis-40 {\n\tflex-basis: 10rem;\n}"),
        ("basis-44", ".basis-44 {\n\tflex-basis: 11rem;\n}"),
        ("basis-48", ".basis-48 {\n\tflex-basis: 12rem;\n}"),
        ("basis-52", ".basis-52 {\n\tflex-basis: 13rem;\n}"),
        ("basis-56", ".basis-56 {\n\tflex-basis: 14rem;\n}"),
        ("basis-60", ".basis-60 {\n\tflex-basis: 15rem;\n}"),
        ("basis-64", ".basis-64 {\n\tflex-basis: 16rem;\n}"),
        ("basis-72", ".basis-72 {\n\tflex-basis: 18rem;\n}"),
        ("basis-80", ".basis-80 {\n\tflex-basis: 20rem;\n}"),
        ("basis-96", ".basis-96 {\n\tflex-basis: 24rem;\n}"),
        ("basis-auto", ".basis-auto {\n\tflex-basis: auto;\n}"),
        ("basis-px", ".basis-px {\n\tflex-basis: 1px;\n}"),
        ("basis-0.5", ".basis-0\\.5 {\n\tflex-basis: 0.125rem;\n}"),
        ("basis-1.5", ".basis-1\\.5 {\n\tflex-basis: 0.375rem;\n}"),
        ("basis-2.5", ".basis-2\\.5 {\n\tflex-basis: 0.625rem;\n}"),
        ("basis-3.5", ".basis-3\\.5 {\n\tflex-basis: 0.875rem;\n}"),
        ("basis-1/2", ".basis-1\\/2 {\n\tflex-basis: 50%;\n}"),
        ("basis-1/3", ".basis-1\\/3 {\n\tflex-basis: 33.333333%;\n}"),
        ("basis-2/3", ".basis-2\\/3 {\n\tflex-basis: 66.666667%;\n}"),
        ("basis-full", ".basis-full {\n\tflex-basis: 100%;\n}"),
    ];
    check_single(&config_set, &test_case);
}

#[test]
fn test_flex_direction() {
    let config_set = default_config();
    let test_case = vec![
        ("flex-row", ".flex-row {\n\tflex-direction: row;\n}"),
        ("flex-row-reverse", ".flex-row-reverse {\n\tflex-direction: row-reverse;\n}"),
        ("flex-col", ".flex-col {\n\tflex-direction: column;\n}"),
        (
            "flex-col-reverse",
            ".flex-col-reverse {\n\tflex-direction: column-reverse;\n}",
        ),
    ];
    check_single(&config_set, &test_case);
}

#[test]
fn test_flex_wrap() {
    let config_set = default_config();
    let test_case = vec![
        ("flex-wrap", ".flex-wrap {\n\tflex-wrap: wrap;\n}"),
        ("flex-wrap-reverse", ".flex-wrap-reverse {\n\tflex-wrap: wrap-reverse;\n}"),
        ("flex-nowrap", ".flex-nowrap {\n\tflex-wrap: nowrap;\n}"),
    ];
    check_single(&config_set, &test_case);
}

#[test]
fn test_flex() {
    let config_set = default_config();
    let test_case = vec![
        ("flex-1", ".flex-1 {\n\tflex: 1 1 0%;\n}"),
        ("flex-auto", ".flex-auto {\n\tflex: 1 1 auto;\n}"),
        ("flex-initial", ".flex-initial {\n\tflex: 0 1 auto;\n}"),
        ("flex-none", ".flex-none {\n\tflex: none;\n}"),
    ];
    check_single(&config_set, &test_case);
}

#[test]
fn test_flex_grow() {
    let config_set = default_config();
    for class in ["grow", "grow-0"] {
        let rules = resolve_all(&config_set, &[class]);
        assert!(rules.is_empty(), "no rule expected for {}", class);
    }
}

#[test]
fn test_font_size() {
    let config_set = default_config();
    let test_case = vec![
        ("text-xs", ".text-xs {\n\tfont-size: 0.75rem;\n\tline-height:  1rem;\n}"),
        ("text-sm", ".text-sm {\n\tfont-size: 0.875rem;\n\tline-height: 1.25rem;\n}"),
        ("text-base", ".text-base {\n\tfont-size: 1rem;\n\tline-height: 1.5rem;\n}"),
        ("text-lg", ".text-lg {\n\tfont-size: 1.125rem;\n\tline-height: 1.75rem;\n}"),
        ("text-xl", ".text-xl {\n\tfont-size: 1.25rem;\n\tline-height: 1.75rem;\n}"),
        ("text-2xl", ".text-2xl {\n\tfont-size: 1.5rem;\n\tline-height: 2rem;\n}"),
        ("text-3xl", ".text-3xl {\n\tfont-size: 1.875rem;\n\tline-height: 2.25rem;\n}"),
        ("text-4xl", ".text-4xl {\n\tfont-size: 2.25rem;\n\tline-height: 2.5rem;\n}"),
        ("text-5xl", ".text-5xl {\n\tfont-size: 3rem;\n\tline-height: 1;\n}"),
        ("text-6xl", ".text-6xl {\n\tfont-size: 3.75rem;\n\tline-height: 1;\n}"),
        ("text-7xl", ".text-7xl {\n\tfont-size: 4.5rem;\n\tline-height: 1;\n}"),
        ("text-8xl", ".text-8xl {\n\tfont-size: 6rem;\n\tline-height: 1;\n}"),
        ("text-9xl", ".text-9xl {\n\tfont-size: 8rem;\n\tline-height: 1;\n}"),
    ];
    check_single(&config_set, &test_case);
}

#[test]
fn test_font_weight_emits_font_size_property() {
    let config_set = default_config();
    let test_case = vec![
        ("font-bold", ".font-bold {\n\tfont-size: 700;\n}"),
        ("font-thin", ".font-thin {\n\tfont-size: 100;\n}"),
    ];
    check_single(&config_set, &test_case);
}

#[test]
fn test_line_height() {
    let config_set = default_config();
    let test_case = vec![
        ("leading-6", ".leading-6 {\n\tline-height: 1.5rem;\n}"),
        ("leading-none", ".leading-none {\n\tline-height: 1;\n}"),
        ("leading-tight", ".leading-tight {\n\tline-height: 1.25;\n}"),
    ];
    check_single(&config_set, &test_case);
}

#[test]
fn test_background_color_flat() {
    let config_set = default_config();
    let test_case = vec![
        ("bg-white", ".bg-white {\n\tbackground-color: #fff;\n}"),
        ("bg-black", ".bg-black {\n\tbackground-color: #000;\n}"),
    ];
    check_single(&config_set, &test_case);
}

#[test]
fn test_background_color_nested() {
    let config_set = default_config();
    let test_case = vec![
        ("bg-red-500", ".bg-red-500 {\n\tbackground-color: #ef4444;\n}"),
        ("bg-red-900", ".bg-red-900 {\n\tbackground-color: #7f1d1d;\n}"),
        ("bg-blue-500", ".bg-blue-500 {\n\tbackground-color: #3b82f6;\n}"),
    ];
    check_single(&config_set, &test_case);
}

#[test]
fn test_background_color_wrong_shape() {
    let config_set = default_config();
    // a flat key used with a shade, and a nested key used flat, both miss
    assert!(resolve_all(&config_set, &["bg-white-500"]).is_empty());
    assert!(resolve_all(&config_set, &["bg-red"]).is_empty());
}

#[test]
fn test_margin_plugin() {
    let config_set = default_config();
    let test_case = vec![
        ("m-4", ".m-4 {\n\tmargin: 1rem;\n}"),
        ("mt-4", ".mt-4 {\n\tmargin-top: 1rem;\n}"),
        (
            "mx-2",
            ".mx-2 {\n\tmargin-left: 0.5rem;\n\tmargin-right: 0.5rem;\n}",
        ),
        ("m-auto", ".m-auto {\n\tmargin: auto;\n}"),
    ];
    check_single(&config_set, &test_case);
}

#[test]
fn test_negative_margin() {
    let config_set = default_config();
    let test_case = vec![
        ("mt-4", ".mt-4 {\n\tmargin-top: 1rem;\n}"),
        ("-mt-4", ".-mt-4 {\n\tmargin-top: -1rem;\n}"),
        (
            "-mx-2",
            ".-mx-2 {\n\tmargin-left: -0.5rem;\n\tmargin-right: -0.5rem;\n}",
        ),
    ];
    check_single(&config_set, &test_case);
}

#[test]
fn test_inset_plugin() {
    let config_set = default_config();
    let test_case = vec![
        (
            "inset-0",
            ".inset-0 {\n\ttop: 0px;\n\tright: 0px;\n\tbottom: 0px;\n\tleft: 0px;\n}",
        ),
        ("top-4", ".top-4 {\n\ttop: 1rem;\n}"),
        ("-top-4", ".-top-4 {\n\ttop: -1rem;\n}"),
    ];
    check_single(&config_set, &test_case);
}

#[test]
fn test_family_alias() {
    let config_set = default_config();
    // the short alias and the literal family name resolve through the
    // same width family and emit the same property
    let test_case = vec![
        ("w-4", ".w-4 {\n\twidth: 1rem;\n}"),
        ("width-4", ".width-4 {\n\twidth: 1rem;\n}"),
        ("w-full", ".w-full {\n\twidth: 100%;\n}"),
        ("h-4", ".h-4 {\n\theight: 1rem;\n}"),
        ("z-10", ".z-10 {\n\tz-index: 2.5rem;\n}"),
    ];
    check_single(&config_set, &test_case);
}

#[test]
fn test_single_declaration_display() {
    let config_set = default_config();
    let test_case = vec![
        ("flex", ".flex {\n\tdisplay: flex;\n}"),
        ("block", ".block {\n\tdisplay: block;\n}"),
        ("hidden", ".hidden {\n\tdisplay: none;\n}"),
    ];
    check_single(&config_set, &test_case);
}

#[test]
fn test_unknown_token() {
    let config_set = default_config();
    assert!(resolve_all(&config_set, &["not-a-real-class"]).is_empty());
    assert!(resolve_all(&config_set, &["text-unknown"]).is_empty());
    assert!(resolve_all(&config_set, &["bg-green-500"]).is_empty());
    assert!(resolve_all(&config_set, &["mt-13"]).is_empty());
}

#[test]
fn test_idempotent_resolution() {
    let config_set = default_config();
    let first = resolve_all(&config_set, &["text-lg", "mt-4", "basis-1/2"]);
    let second = resolve_all(&config_set, &["text-lg", "mt-4", "basis-1/2"]);
    assert_eq!(first, second);
    let twice = resolve_all(&config_set, &["text-lg", "text-lg"]);
    assert_eq!(twice.len(), 2);
    assert_eq!(twice[0], twice[1]);
}

#[test]
fn test_buffer_accumulates_across_passes() {
    let config_set = default_config();
    let first = vec!["flex".to_string()];
    let second = vec!["mt-4".to_string()];
    let buf = RuleBuffer::new();
    let buf = write_css(buf, &config_set, &first);
    let buf = write_css(buf, &config_set, &second);
    assert_eq!(buf.rule_count(), 2);
    assert_eq!(buf.rule_at(0).as_str(), ".flex {\n\tdisplay: flex;\n}");
    assert_eq!(buf.rule_at(1).as_str(), ".mt-4 {\n\tmargin-top: 1rem;\n}");
}

#[test]
fn test_mixed_set_order() {
    let config_set = default_config();
    let rules = resolve_all(&config_set, &["flex", "unknown-thing", "mt-4"]);
    assert_eq!(
        rules,
        vec![
            ".flex {\n\tdisplay: flex;\n}".to_string(),
            ".mt-4 {\n\tmargin-top: 1rem;\n}".to_string(),
        ]
    );
}
