//! The resolvers: each one tries to turn a class-name token into one CSS
//! rule using the token store.
//!
//! A token is decomposed into `(lookup key, category name, negative)` by
//! [`Css::get_key_name`]; the fixed-category resolvers and the generic
//! plugin resolver then look the pieces up in the store and emit a rule
//! block, or nothing when the token matches no configured entry.

use crate::buffer::Buffer;
use crate::config::decl_line;
use crate::config::decls_of;
use crate::config::Config;
use crate::config::Plugin;
use crate::store::assoc_find;
use crate::strutil::count_char;
use crate::strutil::has_prefix;
use crate::strutil::has_prefix_spec;
use crate::strutil::head_before_last;
use crate::strutil::key_of;
use crate::strutil::lemma_last_index_of;
use crate::strutil::scan_char;
use crate::strutil::tail_after_last;
use crate::utils::escape_seq;
use crate::utils::escape_str;
use vstd::prelude::*;

verus! {

/// One CSS rule block: the escaped selector and its declaration lines.
pub open spec fn block_rule(sel: Seq<char>, decls: Seq<char>) -> Seq<char> {
    "."@ + sel + " {\n"@ + decls + "}"@
}

/// The selector key a single-declaration category is looked up by: the
/// token with a leading dot.
pub open spec fn dot_key(line: Seq<char>) -> Seq<char> {
    "."@ + line
}

/// The lookup key of a token: its last dash-delimited segment.
pub open spec fn parsed_key(line: Seq<char>) -> Seq<char> {
    tail_after_last(line, '-')
}

/// A token is negative when it has at least three dash-delimited
/// segments and starts with a dash.
pub open spec fn parsed_negative(line: Seq<char>) -> bool {
    count_char(line, '-') >= 2 && line.len() > 0 && line[0] == '-'
}

/// The category name of a token: everything before the last dash for the
/// `prefix-key`, `prefix-sub-key`, `-prefix-key` and `-prefix-sub-key`
/// shapes; the whole token for every other shape.
pub open spec fn parsed_name(line: Seq<char>) -> Seq<char> {
    let d = count_char(line, '-');
    if d == 1 || d == 2 || (d == 3 && parsed_negative(line)) {
        head_before_last(line, '-')
    } else {
        line
    }
}

/// The font-size rule for a token `text-{key}` whose key is in the store.
pub open spec fn resolve_font_size(c: Config, line: Seq<char>) -> Option<Seq<char>> {
    if has_prefix_spec(line, "text-"@) {
        let k = parsed_key(line);
        match assoc_find(c.font_size@, k) {
            Some(f) => Some(
                block_rule(
                    "text-"@ + escape_seq(k),
                    decl_line("font-size"@, f.value@) + decl_line("line-height"@, f.line_height@),
                ),
            ),
            None => None,
        }
    } else {
        None
    }
}

/// The font-weight rule for a token whose last segment is a font-weight
/// key. The emitted property is `font-size`: that is the established
/// output of this resolver, kept as it is.
pub open spec fn resolve_font_weight(c: Config, line: Seq<char>) -> Option<Seq<char>> {
    let k = parsed_key(line);
    match assoc_find(c.font_weight@, k) {
        Some(v) => Some(block_rule("font-"@ + escape_seq(k), decl_line("font-size"@, v@))),
        None => None,
    }
}

/// The line-height rule for a token `leading-{key}` whose key is in the
/// store; emitted only for the `leading` prefix.
pub open spec fn resolve_line_height(c: Config, prefix: Seq<char>, line: Seq<char>) -> Option<
    Seq<char>,
> {
    let k = parsed_key(line);
    match assoc_find(c.line_height@, k) {
        Some(v) => if prefix == "leading"@ {
            Some(block_rule("leading-"@ + escape_seq(k), decl_line("line-height"@, v@)))
        } else {
            None
        },
        None => None,
    }
}

/// The middle segment of a token with exactly two dashes.
pub open spec fn middle_segment(line: Seq<char>) -> Seq<char> {
    tail_after_last(head_before_last(line, '-'), '-')
}

/// The background-color rule: a two-segment token looks its key up as a
/// flat color, a three-segment token as a palette shade. Other shapes do
/// not match.
pub open spec fn resolve_background_color(c: Config, line: Seq<char>) -> Option<Seq<char>> {
    let d = count_char(line, '-');
    if d == 1 {
        let name = parsed_key(line);
        match assoc_find(c.color@, name) {
            Some(crate::config::ColorValue::Flat(v)) => Some(
                block_rule("bg-"@ + escape_seq(name), decl_line("background-color"@, v@)),
            ),
            _ => None,
        }
    } else if d == 2 {
        let name = middle_segment(line);
        let variant = parsed_key(line);
        match assoc_find(c.color@, name) {
            Some(crate::config::ColorValue::Shades(m)) => match assoc_find(m@, variant) {
                Some(v) => Some(
                    block_rule(
                        "bg-"@ + escape_seq(name) + "-"@ + escape_seq(variant),
                        decl_line("background-color"@, v@),
                    ),
                ),
                None => None,
            },
            _ => None,
        }
    } else {
        None
    }
}

/// The aspect-ratio rule for a token whose last segment is an
/// aspect-ratio key.
pub open spec fn resolve_aspect_ratio(c: Config, line: Seq<char>) -> Option<Seq<char>> {
    let k = parsed_key(line);
    match assoc_find(c.aspect_ratio@, k) {
        Some(v) => Some(block_rule("aspect-"@ + escape_seq(k), decl_line("aspect-ratio"@, v@))),
        None => None,
    }
}

/// The break-point rule for a token registered under `.{token}` in the
/// merged break namespace.
pub open spec fn resolve_break_point(c: Config, line: Seq<char>) -> Option<Seq<char>> {
    match assoc_find(c.break_point@, dot_key(line)) {
        Some(pv) => Some(block_rule(escape_seq(line), decl_line(pv.0@, pv.1@))),
        None => None,
    }
}

/// The first single-declaration category that registers `.{token}` wins.
pub open spec fn resolve_utility(
    cats: Seq<(String, Vec<(String, (String, String))>)>,
    line: Seq<char>,
) -> Option<Seq<char>>
    decreases cats.len(),
{
    if cats.len() == 0 {
        None
    } else {
        match assoc_find(cats[0].1@, dot_key(line)) {
            Some(pv) => Some(block_rule(escape_seq(line), decl_line(pv.0@, pv.1@))),
            None => resolve_utility(cats.drop_first(), line),
        }
    }
}

/// The first plugin family whose table registers the token's category
/// name and whose key resolves to a value wins.
pub open spec fn resolve_plugin_tables(c: Config, plugins: Seq<Plugin>, line: Seq<char>) -> Option<
    Seq<char>,
>
    decreases plugins.len(),
{
    if plugins.len() == 0 {
        None
    } else {
        match c.plugin_decls_of(
            plugins[0].table@,
            parsed_name(line),
            parsed_key(line),
            parsed_negative(line),
        ) {
            Some(d) => Some(block_rule(escape_seq(line), d)),
            None => resolve_plugin_tables(c, plugins.drop_first(), line),
        }
    }
}

/// The generic plugin resolution: single-declaration categories first,
/// then the plugin family tables.
pub open spec fn resolve_plugin(c: Config, line: Seq<char>) -> Option<Seq<char>> {
    match resolve_utility(c.utility@, line) {
        Some(r) => Some(r),
        None => resolve_plugin_tables(c, c.plugins@, line),
    }
}

/// Append the resolved rule, if any, to what a sink holds.
pub open spec fn wrote(s: Seq<Seq<char>>, r: Option<Seq<char>>) -> Seq<Seq<char>> {
    match r {
        Some(x) => s.push(x),
        None => s,
    }
}

/// Passing over categories that do not register the key leaves the
/// single-declaration resolution unchanged.
pub proof fn lemma_resolve_utility_skip(
    cats: Seq<(String, Vec<(String, (String, String))>)>,
    line: Seq<char>,
    i: int,
)
    requires
        0 <= i <= cats.len(),
        forall|j: int| 0 <= j < i ==> assoc_find(#[trigger] cats[j].1@, dot_key(line)) is None,
    ensures
        resolve_utility(cats, line) == resolve_utility(cats.skip(i), line),
    decreases i,
{
    if i > 0 {
        assert(forall|j: int| 0 <= j < i - 1 ==> cats.drop_first()[j] == cats[j + 1]);
        lemma_resolve_utility_skip(cats.drop_first(), line, i - 1);
        assert(cats.drop_first().skip(i - 1) =~= cats.skip(i));
    } else {
        assert(cats.skip(0) =~= cats);
    }
}

/// Passing over plugin families whose resolution fails leaves the plugin
/// resolution unchanged.
pub proof fn lemma_resolve_plugin_tables_skip(
    c: Config,
    plugins: Seq<Plugin>,
    line: Seq<char>,
    i: int,
)
    requires
        0 <= i <= plugins.len(),
        forall|j: int|
            0 <= j < i ==> c.plugin_decls_of(
                #[trigger] plugins[j].table@,
                parsed_name(line),
                parsed_key(line),
                parsed_negative(line),
            ) is None,
    ensures
        resolve_plugin_tables(c, plugins, line) == resolve_plugin_tables(c, plugins.skip(i), line),
    decreases i,
{
    if i > 0 {
        assert(forall|j: int| 0 <= j < i - 1 ==> plugins.drop_first()[j] == plugins[j + 1]);
        lemma_resolve_plugin_tables_skip(c, plugins.drop_first(), line, i - 1);
        assert(plugins.drop_first().skip(i - 1) =~= plugins.skip(i));
    } else {
        assert(plugins.skip(0) =~= plugins);
    }
}

/// Build one rule block from an escaped selector and declaration text.
pub fn make_block_rule(sel: &str, decls: &str) -> (r: String)
    ensures
        r@ == block_rule(sel@, decls@),
{
    let mut out = String::from_str(".");
    out.append(sel);
    out.append(" {\n");
    out.append(decls);
    out.append("}");
    proof {
        assert(out@ =~= block_rule(sel@, decls@));
    }
    out
}

/// Build one rule block that holds a single declaration.
pub fn make_single_rule(sel: &str, prop: &str, value: &str) -> (r: String)
    ensures
        r@ == block_rule(sel@, decl_line(prop@, value@)),
{
    let decls = crate::config::make_decl_line(prop, value);
    make_block_rule(sel, decls.as_str())
}

/// The generator: resolves tokens against the store and sends each
/// produced rule to the output sink.
pub struct Css<'a, B: Buffer> {
    /// The token store, shared and read-only.
    pub config: &'a Config,
    /// The output sink.
    pub writer: B,
}

impl<'a, B: Buffer> Css<'a, B> {
    /// A generator over the given sink and store.
    pub fn new(writer: B, config: &'a Config) -> (r: Self)
        ensures
            r.writer == writer,
            r.config == config,
    {
        Css { config, writer }
    }

    /// Send one rule text to the sink.
    fn append_css(&mut self, css: &str)
        ensures
            final(self).config == old(self).config,
            final(self).writer.contents() == old(self).writer.contents().push(css@),
    {
        self.writer.write(css);
    }

    /// Emit the font-size rule for a `text-` token, when its key is a
    /// configured font size.
    pub fn generate_font_size(&mut self, line: &str)
        ensures
            final(self).config == old(self).config,
            final(self).writer.contents() == wrote(
                old(self).writer.contents(),
                resolve_font_size(*old(self).config, line@),
            ),
    {
        if has_prefix(line, "text-") {
            let cfg = self.config;
            let key = key_of(line);
            match cfg.get_font_size(key) {
                Some(f) => {
                    let esc = escape_str(key);
                    let mut sel = String::from_str("text-");
                    sel.append(esc.as_str());
                    let mut decls = crate::config::make_decl_line("font-size", f.value.as_str());
                    let second = crate::config::make_decl_line(
                        "line-height",
                        f.line_height.as_str(),
                    );
                    decls.append(second.as_str());
                    let rule = make_block_rule(sel.as_str(), decls.as_str());
                    self.append_css(rule.as_str());
                },
                None => {},
            }
        }
    }

    /// Emit the font-weight rule for a token whose last segment is a
    /// configured font weight. The emitted property is `font-size`: that
    /// is the established output of this resolver, kept as it is.
    pub fn generate_font_weight(&mut self, line: &str)
        ensures
            final(self).config == old(self).config,
            final(self).writer.contents() == wrote(
                old(self).writer.contents(),
                resolve_font_weight(*old(self).config, line@),
            ),
    {
        let cfg = self.config;
        let key = key_of(line);
        match cfg.get_font_weight(key) {
            Some(v) => {
                let esc = escape_str(key);
                let mut sel = String::from_str("font-");
                sel.append(esc.as_str());
                let rule = make_single_rule(sel.as_str(), "font-size", v.as_str());
                self.append_css(rule.as_str());
            },
            None => {},
        }
    }

    /// Emit the line-height rule for a `leading-` token, when its key is
    /// a configured line height.
    pub fn generate_line_height(&mut self, prefix: &str, line: &str)
        ensures
            final(self).config == old(self).config,
            final(self).writer.contents() == wrote(
                old(self).writer.contents(),
                resolve_line_height(*old(self).config, prefix@, line@),
            ),
    {
        let cfg = self.config;
        let key = key_of(line);
        match cfg.get_line_height(key) {
            Some(v) => {
                if crate::strutil::str_eq(prefix, "leading") {
                    let esc = escape_str(key);
                    let mut sel = String::from_str("leading-");
                    sel.append(esc.as_str());
                    let rule = make_single_rule(sel.as_str(), "line-height", v.as_str());
                    self.append_css(rule.as_str());
                }
            },
            None => {},
        }
    }

    /// Emit the background-color rule for a `bg-` token: flat lookup for
    /// two segments, palette lookup for three.
    pub fn generate_background_color(&mut self, line: &str)
        ensures
            final(self).config == old(self).config,
            final(self).writer.contents() == wrote(
                old(self).writer.contents(),
                resolve_background_color(*old(self).config, line@),
            ),
    {
        let cfg = self.config;
        let n = line.unicode_len();
        let (d, last) = scan_char(line, '-');
        if d == 1 {
            let name = key_of(line);
            match cfg.get_color_str(name) {
                Some(v) => {
                    let esc = escape_str(name);
                    let mut sel = String::from_str("bg-");
                    sel.append(esc.as_str());
                    let rule = make_single_rule(sel.as_str(), "background-color", v.as_str());
                    self.append_css(rule.as_str());
                },
                None => {},
            }
        } else if d == 2 {
            let l = match last {
                Some(l) => l,
                None => {
                    return;
                },
            };
            proof {
                lemma_last_index_of(line@, '-');
            }
            let head = line.substring_char(0, l);
            assert(head@ =~= head_before_last(line@, '-'));
            let name = key_of(head);
            let variant = line.substring_char(l + 1, n);
            assert(variant@ =~= tail_after_last(line@, '-'));
            match cfg.get_color_map(name) {
                Some(m) => {
                    match crate::store::map_get(m, variant) {
                        Some(v) => {
                            let esc_name = escape_str(name);
                            let esc_variant = escape_str(variant);
                            let mut sel = String::from_str("bg-");
                            sel.append(esc_name.as_str());
                            sel.append("-");
                            sel.append(esc_variant.as_str());
                            let rule = make_single_rule(
                                sel.as_str(),
                                "background-color",
                                v.as_str(),
                            );
                            self.append_css(rule.as_str());
                        },
                        None => {},
                    }
                },
                None => {},
            }
        }
    }

    /// Emit the aspect-ratio rule for a token whose last segment is a
    /// configured aspect ratio.
    pub fn generate_aspect_ratio(&mut self, line: &str)
        ensures
            final(self).config == old(self).config,
            final(self).writer.contents() == wrote(
                old(self).writer.contents(),
                resolve_aspect_ratio(*old(self).config, line@),
            ),
    {
        let cfg = self.config;
        let key = key_of(line);
        match cfg.get_aspect_ratio(key) {
            Some(v) => {
                let esc = escape_str(key);
                let mut sel = String::from_str("aspect-");
                sel.append(esc.as_str());
                let rule = make_single_rule(sel.as_str(), "aspect-ratio", v.as_str());
                self.append_css(rule.as_str());
            },
            None => {},
        }
    }

    /// Emit the break-point rule for a token registered under `.{token}`.
    pub fn generate_break_point(&mut self, line: &str)
        ensures
            final(self).config == old(self).config,
            final(self).writer.contents() == wrote(
                old(self).writer.contents(),
                resolve_break_point(*old(self).config, line@),
            ),
    {
        let cfg = self.config;
        let mut dotted = String::from_str(".");
        dotted.append(line);
        match cfg.get_break_point(dotted.as_str()) {
            Some(pv) => {
                let esc = escape_str(line);
                let rule = make_single_rule(esc.as_str(), pv.0.as_str(), pv.1.as_str());
                self.append_css(rule.as_str());
            },
            None => {},
        }
    }

    /// Decompose a class name into `(lookup key, category name,
    /// negative)` from its dash-delimited segments.
    pub fn get_key_name(line: &str) -> (r: (String, String, bool))
        ensures
            r.0@ == parsed_key(line@),
            r.1@ == parsed_name(line@),
            r.2 == parsed_negative(line@),
    {
        let n = line.unicode_len();
        let (d, last) = scan_char(line, '-');
        let neg = d >= 2 && n > 0 && line.get_char(0) == '-';
        proof {
            if last is Some {
                lemma_last_index_of(line@, '-');
            }
        }
        let key = match last {
            Some(l) => line.substring_char(l + 1, n).to_owned(),
            None => line.to_owned(),
        };
        assert(key@ == parsed_key(line@));
        let name = match last {
            Some(l) => {
                if d == 1 || d == 2 || (d == 3 && neg) {
                    line.substring_char(0, l).to_owned()
                } else {
                    line.to_owned()
                }
            },
            None => line.to_owned(),
        };
        (key, name, neg)
    }

    /// Resolve a token through the generic plugin mechanism: the
    /// single-declaration categories in order, then the plugin family
    /// tables in order. Reports whether a rule was emitted.
    pub fn generate_plugin(&mut self, line: &str) -> (r: Option<()>)
        ensures
            final(self).config == old(self).config,
            final(self).writer.contents() == wrote(
                old(self).writer.contents(),
                resolve_plugin(*old(self).config, line@),
            ),
            r is Some <==> resolve_plugin(*old(self).config, line@) is Some,
    {
        let cfg = self.config;
        let mut dotted = String::from_str(".");
        dotted.append(line);
        let cats_len = cfg.utility.len();
        let mut i: usize = 0;
        while i < cats_len
            invariant
                i <= cats_len,
                *self == *old(self),
                cfg == old(self).config,
                dotted@ == dot_key(line@),
                cats_len == cfg.utility@.len(),
                forall|j: int|
                    0 <= j < i ==> assoc_find(
                        #[trigger] cfg.utility@[j].1@,
                        dot_key(line@),
                    ) is None,
            decreases cats_len - i,
        {
            match Config::get_obj(&cfg.utility[i].1, dotted.as_str()) {
                Some(pv) => {
                    proof {
                        lemma_resolve_utility_skip(cfg.utility@, line@, i as int);
                        assert(cfg.utility@.skip(i as int)[0] == cfg.utility@[i as int]);
                    }
                    let esc = escape_str(line);
                    let rule = make_single_rule(esc.as_str(), pv.0.as_str(), pv.1.as_str());
                    self.append_css(rule.as_str());
                    return Some(());
                },
                None => {},
            }
            i = i + 1;
        }
        proof {
            lemma_resolve_utility_skip(cfg.utility@, line@, cats_len as int);
            assert(cfg.utility@.skip(cats_len as int) =~= Seq::<
                (String, Vec<(String, (String, String))>),
            >::empty());
        }
        let parsed = Self::get_key_name(line);
        let plugins_len = cfg.plugins.len();
        let mut p: usize = 0;
        while p < plugins_len
            invariant
                p <= plugins_len,
                *self == *old(self),
                cfg == old(self).config,
                plugins_len == cfg.plugins@.len(),
                resolve_utility(cfg.utility@, line@) is None,
                forall|j: int|
                    0 <= j < p ==> cfg.plugin_decls_of(
                        #[trigger] cfg.plugins@[j].table@,
                        parsed_name(line@),
                        parsed_key(line@),
                        parsed_negative(line@),
                    ) is None,
                parsed.0@ == parsed_key(line@),
                parsed.1@ == parsed_name(line@),
                parsed.2 == parsed_negative(line@),
            decreases plugins_len - p,
        {
            match cfg.get_plugin_value(
                &cfg.plugins[p].table,
                parsed.1.as_str(),
                parsed.0.as_str(),
                parsed.2,
            ) {
                Some(decls) => {
                    proof {
                        lemma_resolve_plugin_tables_skip(*cfg, cfg.plugins@, line@, p as int);
                        assert(cfg.plugins@.skip(p as int)[0] == cfg.plugins@[p as int]);
                    }
                    let esc = escape_str(line);
                    let rule = make_block_rule(esc.as_str(), decls.as_str());
                    self.append_css(rule.as_str());
                    return Some(());
                },
                None => {},
            }
            p = p + 1;
        }
        proof {
            lemma_resolve_plugin_tables_skip(*cfg, cfg.plugins@, line@, plugins_len as int);
            assert(cfg.plugins@.skip(plugins_len as int) =~= Seq::<Plugin>::empty());
        }
        None
    }
}

} // verus!
