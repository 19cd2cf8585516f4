//! The engine: feeds each class-name token through the resolvers in
//! priority order and sends every produced rule to the output sink.
//!
//! A token that matches no resolver produces no output and is skipped;
//! unrecognized classes are expected and are not an error.

use crate::buffer::Buffer;
use crate::config::Config;
use crate::css::resolve_aspect_ratio;
use crate::css::resolve_background_color;
use crate::css::resolve_break_point;
use crate::css::resolve_font_size;
use crate::css::resolve_font_weight;
use crate::css::resolve_line_height;
use crate::css::resolve_plugin;
use crate::css::wrote;
use crate::css::Css;
use crate::strutil::has_prefix;
use crate::strutil::has_prefix_spec;
use vstd::prelude::*;

verus! {

/// Report the bare prefix when `line` starts with `{prefix}-`.
pub fn handle_prefix(line: &str, prefix: &str) -> (r: Option<String>)
    ensures
        match r {
            Some(p) => p@ == prefix@ && has_prefix_spec(line@, prefix@ + "-"@),
            None => !has_prefix_spec(line@, prefix@ + "-"@),
        },
{
    let mut dashed = prefix.to_owned();
    dashed.append("-");
    if has_prefix(line, dashed.as_str()) {
        Some(prefix.to_owned())
    } else {
        None
    }
}

/// A dashed category prefix is the bare prefix with a dash appended.
proof fn lemma_prefix_literals()
    ensures
        "leading"@ + "-"@ =~= "leading-"@,
        "bg"@ + "-"@ =~= "bg-"@,
        "aspect"@ + "-"@ =~= "aspect-"@,
        "break"@ + "-"@ =~= "break-"@,
{
    reveal_strlit("leading");
    reveal_strlit("leading-");
    reveal_strlit("bg");
    reveal_strlit("bg-");
    reveal_strlit("aspect");
    reveal_strlit("aspect-");
    reveal_strlit("break");
    reveal_strlit("break-");
    reveal_strlit("-");
}

/// The rule a token resolves to, with the resolvers tried in their fixed
/// priority order: font-size, font-weight, line-height, background-color,
/// aspect-ratio, break-point, then the generic plugin resolution. A token
/// that matches a resolver's prefix is settled by that resolver alone.
pub open spec fn resolve_spec(c: Config, line: Seq<char>) -> Option<Seq<char>> {
    if has_prefix_spec(line, "text-"@) {
        resolve_font_size(c, line)
    } else if has_prefix_spec(line, "font-"@) {
        resolve_font_weight(c, line)
    } else if has_prefix_spec(line, "leading-"@) {
        resolve_line_height(c, "leading"@, line)
    } else if has_prefix_spec(line, "bg-"@) {
        resolve_background_color(c, line)
    } else if has_prefix_spec(line, "aspect-"@) {
        resolve_aspect_ratio(c, line)
    } else if has_prefix_spec(line, "break-"@) {
        resolve_break_point(c, line)
    } else {
        resolve_plugin(c, line)
    }
}

/// The rules an ordered token list resolves to: one per matched token,
/// in token order; unmatched tokens contribute nothing.
pub open spec fn rules_of(c: Config, lines: Seq<String>) -> Seq<Seq<char>>
    decreases lines.len(),
{
    if lines.len() == 0 {
        Seq::empty()
    } else {
        wrote(rules_of(c, lines.drop_last()), resolve_spec(c, lines.last()@))
    }
}

/// Resolve every token of `source` in order against `config` and write
/// each produced rule to `buffer`; hand the sink back.
pub fn write_css<B: Buffer>(buffer: B, config: &Config, source: &Vec<String>) -> (r: B)
    ensures
        r.contents() == buffer.contents() + rules_of(*config, source@),
{
    let ghost init = buffer.contents();
    let mut generator = Css::new(buffer, config);
    let n = source.len();
    let mut i: usize = 0;
    while i < n
        invariant
            i <= n,
            n == source@.len(),
            generator.config == config,
            generator.writer.contents() == init + rules_of(*config, source@.subrange(0, i as int)),
        decreases n - i,
    {
        proof {
            lemma_prefix_literals();
        }
        let line = source[i].as_str();
        if has_prefix(line, "text-") {
            generator.generate_font_size(line);
        } else if has_prefix(line, "font-") {
            generator.generate_font_weight(line);
        } else if let Some(prefix) = handle_prefix(line, "leading") {
            generator.generate_line_height(prefix.as_str(), line);
        } else if handle_prefix(line, "bg").is_some() {
            generator.generate_background_color(line);
        } else if handle_prefix(line, "aspect").is_some() {
            generator.generate_aspect_ratio(line);
        } else if handle_prefix(line, "break").is_some() {
            generator.generate_break_point(line);
        } else {
            let _ = generator.generate_plugin(line);
        }
        proof {
            let pre = source@.subrange(0, i as int);
            let cur = source@.subrange(0, i + 1);
            assert(cur.drop_last() =~= pre);
            assert(cur.last() == source@[i as int]);
            assert(generator.writer.contents() == init + wrote(
                rules_of(*config, pre),
                resolve_spec(*config, line@),
            ));
        }
        i = i + 1;
    }
    proof {
        assert(source@.subrange(0, n as int) =~= source@);
    }
    generator.writer
}

} // verus!
