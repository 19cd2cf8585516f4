//! The laws of the resolution pipeline, stated and proved over the
//! resolver specifications.

use crate::config::decl_line;
use crate::config::decls_of;
use crate::config::normalize_family;
use crate::config::ColorValue;
use crate::config::Config;
use crate::config::FontSize;
use crate::css::block_rule;
use crate::css::dot_key;
use crate::css::lemma_resolve_plugin_tables_skip;
use crate::css::lemma_resolve_utility_skip;
use crate::css::middle_segment;
use crate::css::parsed_key;
use crate::css::parsed_name;
use crate::css::parsed_negative;
use crate::generate::resolve_spec;
use crate::store::assoc_find;
use crate::strutil::count_char;
use crate::strutil::has_prefix_spec;
use crate::strutil::lemma_count_char_concat;
use crate::strutil::lemma_split_at_concat;
use crate::utils::lemma_escape_id;
use vstd::prelude::*;

verus! {

/// Every token `text-{k}` whose key `k` is a known font-size key resolves
/// to exactly the font-size rule, with the value and the line-height
/// taken verbatim from the token store.
pub proof fn lemma_font_size_exact(c: Config, k: Seq<char>, f: FontSize)
    requires
        assoc_find(c.font_size@, k) == Some(f),
        count_char(k, '-') == 0,
        forall|i: int| 0 <= i < k.len() ==> k[i] != '.' && k[i] != '/',
    ensures
        resolve_spec(c, "text-"@ + k) == Some(
            block_rule(
                "text-"@ + k,
                decl_line("font-size"@, f.value@) + decl_line("line-height"@, f.line_height@),
            ),
        ),
{
    let line = "text-"@ + k;
    reveal_strlit("text-");
    assert("text-"@.len() == 5);
    assert("text-"@.last() == '-');
    lemma_split_at_concat("text-"@, k, '-');
    assert(parsed_key(line) == k);
    assert(line.subrange(0, 5) =~= "text-"@);
    assert(has_prefix_spec(line, "text-"@));
    lemma_escape_id(k);
}

/// Every token `bg-{name}-{variant}` whose name carries a nested palette
/// with a declared shade resolves to exactly the background-color rule,
/// with the color taken verbatim from the palette.
#[verifier::rlimit(100)]
#[verifier::spinoff_prover]
pub proof fn lemma_background_shade_exact(
    c: Config,
    name: Seq<char>,
    variant: Seq<char>,
    m: Vec<(String, String)>,
    v: String,
)
    requires
        assoc_find(c.color@, name) == Some(ColorValue::Shades(m)),
        assoc_find(m@, variant) == Some(v),
        count_char(name, '-') == 0,
        count_char(variant, '-') == 0,
        forall|i: int| 0 <= i < name.len() ==> name[i] != '.' && name[i] != '/',
        forall|i: int| 0 <= i < variant.len() ==> variant[i] != '.' && variant[i] != '/',
    ensures
        resolve_spec(c, "bg-"@ + name + "-"@ + variant) == Some(
            block_rule("bg-"@ + name + "-"@ + variant, decl_line("background-color"@, v@)),
        ),
{
    let line = "bg-"@ + name + "-"@ + variant;
    let head = "bg-"@ + name + "-"@;
    reveal_strlit("bg-");
    reveal_strlit("-");
    reveal_strlit("text-");
    reveal_strlit("font-");
    reveal_strlit("leading-");
    assert("bg-"@.len() == 3);
    assert("-"@.len() == 1);
    assert(head.last() == '-');
    assert(line =~= head + variant);
    lemma_split_at_concat(head, variant, '-');
    assert(parsed_key(line) == variant);
    assert(head.drop_last() =~= "bg-"@ + name);
    assert("bg-"@.last() == '-');
    lemma_split_at_concat("bg-"@, name, '-');
    assert(middle_segment(line) == name);
    // the token has exactly two dashes
    assert(count_char("bg-"@, '-') == 1) by {
        reveal_with_fuel(count_char, 5);
        assert("bg-"@.drop_last() =~= seq!['b', 'g']);
        assert(seq!['b', 'g'].drop_last() =~= seq!['b']);
        assert(seq!['b'].drop_last() =~= Seq::<char>::empty());
    }
    lemma_count_char_concat("bg-"@, name, '-');
    lemma_count_char_concat("bg-"@ + name, "-"@, '-');
    assert(count_char("-"@, '-') == 1) by {
        reveal_with_fuel(count_char, 2);
        assert("-"@.drop_last() =~= Seq::<char>::empty());
    }
    lemma_count_char_concat(head, variant, '-');
    assert(head =~= ("bg-"@ + name) + "-"@);
    assert(count_char(line, '-') == 2);
    // the bg- prefix matches and no earlier resolver's prefix does
    assert(line.subrange(0, 3) =~= "bg-"@);
    assert(has_prefix_spec(line, "bg-"@));
    assert(!has_prefix_spec(line, "text-"@)) by {
        if has_prefix_spec(line, "text-"@) {
            assert(line.subrange(0, 5)[0] == line[0]);
            assert(line[0] == 't');
        }
        assert(line[0] == 'b');
    }
    assert(!has_prefix_spec(line, "font-"@)) by {
        if has_prefix_spec(line, "font-"@) {
            assert(line.subrange(0, 5)[0] == line[0]);
            assert(line[0] == 'f');
        }
        assert(line[0] == 'b');
    }
    assert(!has_prefix_spec(line, "leading-"@)) by {
        if has_prefix_spec(line, "leading-"@) {
            assert(line.subrange(0, 8)[0] == line[0]);
            assert(line[0] == 'l');
        }
        assert(line[0] == 'b');
    }
    lemma_escape_id(name);
    lemma_escape_id(variant);
    assert("bg-"@ + name + "-"@ + variant =~= "bg-"@ + name + ("-"@ + variant));
}

/// Negative and positive forms of one registered plugin prefix resolve
/// through the same table entry and the same value source; the emitted
/// declarations differ only in the leading minus sign put before the
/// value.
pub proof fn lemma_negative_plugin(
    c: Config,
    table: Seq<(String, Vec<String>)>,
    name: Seq<char>,
    key: Seq<char>,
    props: Vec<String>,
    v: String,
)
    requires
        assoc_find(table, name) == Some(props),
        assoc_find(table, "-"@ + name) == Some(props),
        c.plugin_value_of(name, key) == Some(v),
    ensures
        c.plugin_decls_of(table, name, key, false) == Some(decls_of(props@, v@)),
        c.plugin_decls_of(table, "-"@ + name, key, true) == Some(decls_of(props@, "-"@ + v@)),
{
    reveal_strlit("-");
    assert("-"@.len() == 1);
    let neg = "-"@ + name;
    assert(neg[0] == '-');
    assert(neg.skip(1) =~= name);
    assert(normalize_family(neg) == normalize_family(name));
}

/// A positive token `{base}-{k}` and its negative form `-{base}-{k}`
/// parse to the same lookup key, to category names differing only by the
/// leading dash, and to opposite signs.
pub proof fn lemma_negative_token_shape(base: Seq<char>, k: Seq<char>)
    requires
        count_char(base, '-') == 0,
        count_char(k, '-') == 0,
        base.len() > 0,
        base[0] != '-',
    ensures
        parsed_key(base + "-"@ + k) == k,
        parsed_name(base + "-"@ + k) == base,
        !parsed_negative(base + "-"@ + k),
        parsed_key("-"@ + base + "-"@ + k) == k,
        parsed_name("-"@ + base + "-"@ + k) == "-"@ + base,
        parsed_negative("-"@ + base + "-"@ + k),
{
    reveal_strlit("-");
    assert("-"@.len() == 1);
    assert(count_char("-"@, '-') == 1) by {
        reveal_with_fuel(count_char, 2);
        assert("-"@.drop_last() =~= Seq::<char>::empty());
    }
    let pos = base + "-"@ + k;
    let pos_head = base + "-"@;
    assert(pos =~= pos_head + k);
    assert(pos_head.last() == '-');
    lemma_split_at_concat(pos_head, k, '-');
    assert(pos_head.drop_last() =~= base);
    lemma_count_char_concat(base, "-"@, '-');
    lemma_count_char_concat(pos_head, k, '-');
    assert(count_char(pos, '-') == 1);
    let neg = "-"@ + base + "-"@ + k;
    let neg_head = "-"@ + base + "-"@;
    assert(neg =~= neg_head + k);
    assert(neg_head.last() == '-');
    lemma_split_at_concat(neg_head, k, '-');
    assert(neg_head.drop_last() =~= "-"@ + base);
    lemma_count_char_concat("-"@, base, '-');
    lemma_count_char_concat("-"@ + base, "-"@, '-');
    assert(neg_head =~= ("-"@ + base) + "-"@);
    lemma_count_char_concat(neg_head, k, '-');
    assert(count_char(neg, '-') == 2);
    assert(neg[0] == '-');
    assert(neg.len() > 0);
}

/// Resolution is a pure function of the token store and the token: two
/// resolutions of the same token against the same store are identical.
pub proof fn lemma_resolve_deterministic(
    c: Config,
    line: Seq<char>,
    r1: Option<Seq<char>>,
    r2: Option<Seq<char>>,
)
    requires
        r1 == resolve_spec(c, line),
        r2 == resolve_spec(c, line),
    ensures
        r1 == r2,
{
}

/// A token whose pieces no category of the store mentions resolves to no
/// rule: an unrecognized class is skipped, never an error.
pub proof fn lemma_unknown_token(c: Config, line: Seq<char>)
    requires
        assoc_find(c.font_size@, parsed_key(line)) is None,
        assoc_find(c.font_weight@, parsed_key(line)) is None,
        assoc_find(c.line_height@, parsed_key(line)) is None,
        assoc_find(c.aspect_ratio@, parsed_key(line)) is None,
        assoc_find(c.color@, parsed_key(line)) is None,
        assoc_find(c.color@, middle_segment(line)) is None,
        assoc_find(c.break_point@, dot_key(line)) is None,
        forall|j: int|
            0 <= j < c.utility@.len() ==> assoc_find(
                #[trigger] c.utility@[j].1@,
                dot_key(line),
            ) is None,
        forall|j: int|
            0 <= j < c.plugins@.len() ==> assoc_find(
                #[trigger] c.plugins@[j].table@,
                parsed_name(line),
            ) is None,
    ensures
        resolve_spec(c, line) is None,
{
    lemma_resolve_utility_skip(c.utility@, line, c.utility@.len() as int);
    assert(c.utility@.skip(c.utility@.len() as int) =~= Seq::<
        (String, Vec<(String, (String, String))>),
    >::empty());
    assert(forall|j: int|
        0 <= j < c.plugins@.len() ==> c.plugin_decls_of(
            #[trigger] c.plugins@[j].table@,
            parsed_name(line),
            parsed_key(line),
            parsed_negative(line),
        ) is None);
    lemma_resolve_plugin_tables_skip(c, c.plugins@, line, c.plugins@.len() as int);
    assert(c.plugins@.skip(c.plugins@.len() as int) =~= Seq::<crate::config::Plugin>::empty());
}

/// The short width alias and the literal family name route through the
/// same normalized family, so any key resolves to the same value through
/// either.
pub proof fn lemma_family_alias(c: Config, k: Seq<char>)
    ensures
        normalize_family("w"@) == normalize_family("width"@),
        c.plugin_value_of("w"@, k) == c.plugin_value_of("width"@, k),
{
    reveal_strlit("w");
    reveal_strlit("width");
    reveal_strlit("h");
    reveal_strlit("z");
    reveal_strlit("m");
    reveal_strlit("mx");
    reveal_strlit("my");
    reveal_strlit("ml");
    reveal_strlit("mr");
    reveal_strlit("mt");
    reveal_strlit("mb");
    assert(normalize_family("w"@) == "width"@);
    assert(normalize_family("width"@) == "width"@);
}

} // verus!
