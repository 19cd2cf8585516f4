//! The token store: the design-token configuration read by the resolvers.
//!
//! A [`Config`] is built once from a configuration document and is read-only
//! afterwards. Each category is an ordered key/value store; every read is a
//! total function that returns an optional result, so an absent category or
//! key is never an error, it simply resolves to "no rule".

use crate::store::assoc_find;
use crate::store::lemma_assoc_find_skip;
use crate::store::map_get;
use crate::strutil::str_eq;
use vstd::prelude::*;

verus! {

/// A font-size token: the font-size value and the line-height paired with
/// it.
#[derive(Debug)]
pub struct FontSize {
    /// The CSS font-size value, e.g. `0.75rem`.
    pub value: String,
    /// The paired line-height: a bare number written out, or a length.
    pub line_height: String,
}

/// A top-level color token: either one flat color value, or a nested
/// palette of shade variants. The two shapes are mutually exclusive per
/// key; a lookup with the accessor of the other shape fails.
#[derive(Debug)]
pub enum ColorValue {
    /// A single color value, matched by `bg-{key}`.
    Flat(String),
    /// A palette of `variant -> color value`, matched by
    /// `bg-{key}-{variant}`.
    Shades(Vec<(String, String)>),
}

/// How a plugin utility family registers its keys.
#[derive(Clone, Copy, Debug, PartialEq, Eq, Structural)]
pub enum Mode {
    /// Every key is registered twice: as `key` and as `-key`. Both map to
    /// the same property list; the negative one gets a `-` put before its
    /// resolved value at emission time.
    WithNegative,
    /// Every key is registered once.
    OnlyPositive,
}

/// One plugin utility family: a table from a registered class-name prefix
/// (`mt`, `-mt`, `w`, ...) to the list of CSS property names that all
/// receive the family's resolved value.
#[derive(Debug)]
pub struct Plugin {
    /// The family name the table was built for (`margin`, `width`, ...).
    pub name: String,
    /// Registered prefix -> CSS property names.
    pub table: Vec<(String, Vec<String>)>,
}

/// The design-token configuration: one ordered key/value store per token
/// category. Immutable after construction; all reads are total.
#[derive(Debug)]
pub struct Config {
    /// Font-size key -> (value, line-height) pair.
    pub font_size: Vec<(String, FontSize)>,
    /// Font-weight key -> value.
    pub font_weight: Vec<(String, String)>,
    /// The spacing scale, the first value source of every plugin family.
    pub spacing: Vec<(String, String)>,
    /// Line-height key -> value.
    pub line_height: Vec<(String, String)>,
    /// Aspect-ratio key -> value.
    pub aspect_ratio: Vec<(String, String)>,
    /// Family-specific value maps (`margin`, `width`, `basis`, ...), the
    /// fallback value source after the spacing scale.
    pub family_values: Vec<(String, Vec<(String, String)>)>,
    /// `.{token}` -> one (property, value) declaration, for the merged
    /// break-before/break-after/break-inside namespace.
    pub break_point: Vec<(String, (String, String))>,
    /// Color key -> flat value or nested palette.
    pub color: Vec<(String, ColorValue)>,
    /// Single-declaration categories (display, visibility, float, ...),
    /// each mapping `.{token}` -> one (property, value) declaration, tried
    /// in order.
    pub utility: Vec<(String, Vec<(String, (String, String))>)>,
    /// The plugin utility families, tried in order.
    pub plugins: Vec<Plugin>,
}

/// The canonical family of a registered class-name prefix: a leading `-`
/// is dropped, the short width/height/z-index aliases and the margin-area
/// prefixes map to their family name, and anything else names itself.
pub open spec fn normalize_family(name: Seq<char>) -> Seq<char>
    decreases name.len(),
{
    if name.len() > 0 && name[0] == '-' {
        normalize_family(name.skip(1))
    } else if name == "w"@ {
        "width"@
    } else if name == "h"@ {
        "height"@
    } else if name == "z"@ {
        "z_index"@
    } else if name == "m"@ || name == "mx"@ || name == "my"@ || name == "ml"@ || name == "mr"@
        || name == "mt"@ || name == "mb"@ {
        "margin"@
    } else {
        name
    }
}

/// One emitted declaration line.
pub open spec fn decl_line(prop: Seq<char>, value: Seq<char>) -> Seq<char> {
    "\t"@ + prop + ": "@ + value + ";\n"@
}

/// The declaration lines of a plugin match: every registered property
/// receives the same value.
pub open spec fn decls_of(props: Seq<String>, value: Seq<char>) -> Seq<char>
    decreases props.len(),
{
    if props.len() == 0 {
        Seq::empty()
    } else {
        decls_of(props.drop_last(), value) + decl_line(props.last()@, value)
    }
}

/// The resolved value with its sign applied.
pub open spec fn signed_value(v: Seq<char>, negative: bool) -> Seq<char> {
    if negative {
        "-"@ + v
    } else {
        v
    }
}

impl Config {
    /// The spacing-scale value registered under `k`.
    pub open spec fn spacing_of(self, k: Seq<char>) -> Option<String> {
        assoc_find(self.spacing@, k)
    }

    /// The family-specific value registered under `k` for family `fam`.
    pub open spec fn family_value_of(self, fam: Seq<char>, k: Seq<char>) -> Option<String> {
        match assoc_find(self.family_values@, fam) {
            Some(m) => assoc_find(m@, k),
            None => None,
        }
    }

    /// The value a plugin token key resolves to for a registered prefix:
    /// the spacing scale first, then the normalized family's own map.
    pub open spec fn plugin_value_of(self, name: Seq<char>, k: Seq<char>) -> Option<String> {
        match self.spacing_of(k) {
            Some(v) => Some(v),
            None => self.family_value_of(normalize_family(name), k),
        }
    }

    /// The declaration block of one plugin table for a parsed token, if
    /// the table registers the prefix and the key resolves to a value.
    pub open spec fn plugin_decls_of(
        self,
        table: Seq<(String, Vec<String>)>,
        name: Seq<char>,
        key: Seq<char>,
        negative: bool,
    ) -> Option<Seq<char>> {
        match assoc_find(table, name) {
            Some(props) => match self.plugin_value_of(name, key) {
                Some(v) => Some(decls_of(props@, signed_value(v@, negative))),
                None => None,
            },
            None => None,
        }
    }

    /// The font-size pair registered under `key`.
    pub fn get_font_size<'a>(&'a self, key: &str) -> (r: Option<&'a FontSize>)
        ensures
            match r {
                Some(v) => assoc_find(self.font_size@, key@) == Some(*v),
                None => assoc_find(self.font_size@, key@) is None,
            },
    {
        map_get(&self.font_size, key)
    }

    /// The font-weight value registered under `key`.
    pub fn get_font_weight<'a>(&'a self, key: &str) -> (r: Option<&'a String>)
        ensures
            match r {
                Some(v) => assoc_find(self.font_weight@, key@) == Some(*v),
                None => assoc_find(self.font_weight@, key@) is None,
            },
    {
        map_get(&self.font_weight, key)
    }

    /// The spacing-scale value registered under `key`.
    pub fn get_spacing<'a>(&'a self, key: &str) -> (r: Option<&'a String>)
        ensures
            match r {
                Some(v) => self.spacing_of(key@) == Some(*v),
                None => self.spacing_of(key@) is None,
            },
    {
        map_get(&self.spacing, key)
    }

    /// The line-height value registered under `key`.
    pub fn get_line_height<'a>(&'a self, key: &str) -> (r: Option<&'a String>)
        ensures
            match r {
                Some(v) => assoc_find(self.line_height@, key@) == Some(*v),
                None => assoc_find(self.line_height@, key@) is None,
            },
    {
        map_get(&self.line_height, key)
    }

    /// The aspect-ratio value registered under `key`.
    pub fn get_aspect_ratio<'a>(&'a self, key: &str) -> (r: Option<&'a String>)
        ensures
            match r {
                Some(v) => assoc_find(self.aspect_ratio@, key@) == Some(*v),
                None => assoc_find(self.aspect_ratio@, key@) is None,
            },
    {
        map_get(&self.aspect_ratio, key)
    }

    /// The width family value registered under `key`.
    pub fn get_width<'a>(&'a self, key: &str) -> (r: Option<&'a String>)
        ensures
            match r {
                Some(v) => self.family_value_of("width"@, key@) == Some(*v),
                None => self.family_value_of("width"@, key@) is None,
            },
    {
        match map_get(&self.family_values, "width") {
            Some(m) => map_get(m, key),
            None => None,
        }
    }

    /// The margin value registered under `key`: the spacing scale first,
    /// then the margin family map.
    pub fn get_margin<'a>(&'a self, key: &str) -> (r: Option<&'a String>)
        ensures
            match r {
                Some(v) => self.plugin_value_of("margin"@, key@) == Some(*v),
                None => self.plugin_value_of("margin"@, key@) is None,
            },
    {
        proof {
            lemma_normalize_margin();
        }
        let spaced = map_get(&self.spacing, key);
        if spaced.is_some() {
            return spaced;
        }
        match map_get(&self.family_values, "margin") {
            Some(m) => map_get(m, key),
            None => None,
        }
    }

    /// The break-point declaration registered under the selector `key`
    /// (a `.{token}` string).
    pub fn get_break_point<'a>(&'a self, key: &str) -> (r: Option<&'a (String, String)>)
        ensures
            match r {
                Some(v) => assoc_find(self.break_point@, key@) == Some(*v),
                None => assoc_find(self.break_point@, key@) is None,
            },
    {
        map_get(&self.break_point, key)
    }

    /// The nested palette registered under the color `key`; fails when
    /// the key is absent or holds a flat value.
    pub fn get_color_map<'a>(&'a self, key: &str) -> (r: Option<&'a Vec<(String, String)>>)
        ensures
            match r {
                Some(m) => assoc_find(self.color@, key@) == Some(ColorValue::Shades(*m)),
                None => !(assoc_find(self.color@, key@) matches Some(ColorValue::Shades(_))),
            },
    {
        match map_get(&self.color, key) {
            Some(ColorValue::Shades(m)) => Some(m),
            _ => None,
        }
    }

    /// The flat color value registered under the color `key`; fails when
    /// the key is absent or holds a nested palette.
    pub fn get_color_str<'a>(&'a self, key: &str) -> (r: Option<&'a String>)
        ensures
            match r {
                Some(v) => assoc_find(self.color@, key@) == Some(ColorValue::Flat(*v)),
                None => !(assoc_find(self.color@, key@) matches Some(ColorValue::Flat(_))),
            },
    {
        match map_get(&self.color, key) {
            Some(ColorValue::Flat(v)) => Some(v),
            _ => None,
        }
    }

    /// The single declaration registered under `data_key` in one
    /// single-declaration category.
    pub fn get_obj<'a>(
        data: &'a Vec<(String, (String, String))>,
        data_key: &str,
    ) -> (r: Option<&'a (String, String)>)
        ensures
            match r {
                Some(v) => assoc_find(data@, data_key@) == Some(*v),
                None => assoc_find(data@, data_key@) is None,
            },
    {
        map_get(data, data_key)
    }

    /// The columns declaration registered under the selector `key`.
    pub fn get_columns<'a>(&'a self, key: &str) -> (r: Option<&'a (String, String)>)
        ensures
            match r {
                Some(v) => self.utility_category_find("columns"@, key@) == Some(*v),
                None => self.utility_category_find("columns"@, key@) is None,
            },
    {
        self.get_utility_entry("columns", key)
    }

    /// The box-decoration-break declaration registered under the selector
    /// `key`.
    pub fn get_box_decoration_break<'a>(&'a self, key: &str) -> (r: Option<&'a (String, String)>)
        ensures
            match r {
                Some(v) => self.utility_category_find("box-decoration-break"@, key@) == Some(*v),
                None => self.utility_category_find("box-decoration-break"@, key@) is None,
            },
    {
        self.get_utility_entry("box-decoration-break", key)
    }

    /// The declaration registered under `key` in the single-declaration
    /// category called `cat`.
    pub open spec fn utility_category_find(self, cat: Seq<char>, key: Seq<char>) -> Option<
        (String, String),
    > {
        match assoc_find(self.utility@, cat) {
            Some(m) => assoc_find(m@, key),
            None => None,
        }
    }

    /// Look `key` up in one named single-declaration category.
    pub fn get_utility_entry<'a>(&'a self, cat: &str, key: &str) -> (r: Option<
        &'a (String, String),
    >)
        ensures
            match r {
                Some(v) => self.utility_category_find(cat@, key@) == Some(*v),
                None => self.utility_category_find(cat@, key@) is None,
            },
    {
        match map_get(&self.utility, cat) {
            Some(m) => map_get(m, key),
            None => None,
        }
    }

    /// Resolve the value for a registered plugin prefix and token key:
    /// the spacing scale first, then the normalized family's map.
    pub fn get_plugin_value_source<'a>(&'a self, name: &str, key: &str) -> (r: Option<&'a String>)
        ensures
            match r {
                Some(v) => self.plugin_value_of(name@, key@) == Some(*v),
                None => self.plugin_value_of(name@, key@) is None,
            },
    {
        let spaced = map_get(&self.spacing, key);
        if spaced.is_some() {
            return spaced;
        }
        let fam = normalize_family_name(name);
        match map_get(&self.family_values, fam.as_str()) {
            Some(m) => map_get(m, key),
            None => None,
        }
    }

    /// The declaration block for one plugin table and a parsed token:
    /// every property registered under `data_key` receives the resolved
    /// value, prefixed with `-` when the token was negative.
    pub fn get_plugin_value(
        &self,
        table: &Vec<(String, Vec<String>)>,
        data_key: &str,
        key_val: &str,
        is_negative: bool,
    ) -> (r: Option<String>)
        ensures
            match r {
                Some(s) => self.plugin_decls_of(table@, data_key@, key_val@, is_negative) == Some(
                    s@,
                ),
                None => self.plugin_decls_of(table@, data_key@, key_val@, is_negative) is None,
            },
    {
        let props = match map_get(table, data_key) {
            Some(p) => p,
            None => {
                return None;
            },
        };
        let value = match self.get_plugin_value_source(data_key, key_val) {
            Some(v) => v,
            None => {
                return None;
            },
        };
        let mut signed = if is_negative {
            let mut s = String::from_str("-");
            s.append(value.as_str());
            s
        } else {
            value.clone()
        };
        let ghost sv = signed_value(value@, is_negative);
        assert(signed@ == sv);
        let n = props.len();
        let mut out = String::new();
        let mut i: usize = 0;
        while i < n
            invariant
                i <= n,
                n == props@.len(),
                signed@ == sv,
                out@ == decls_of(props@.subrange(0, i as int), sv),
            decreases n - i,
        {
            let line = make_decl_line(props[i].as_str(), signed.as_str());
            out.append(line.as_str());
            proof {
                let pre = props@.subrange(0, i as int);
                let cur = props@.subrange(0, i + 1);
                assert(cur.drop_last() =~= pre);
                assert(cur.last() == props@[i as int]);
            }
            i = i + 1;
        }
        proof {
            assert(props@.subrange(0, n as int) =~= props@);
        }
        Some(out)
    }
}

/// Build one declaration line for a property/value pair.
pub fn make_decl_line(prop: &str, value: &str) -> (r: String)
    ensures
        r@ == decl_line(prop@, value@),
{
    let mut out = String::from_str("\t");
    out.append(prop);
    out.append(": ");
    out.append(value);
    out.append(";\n");
    proof {
        assert(out@ =~= decl_line(prop@, value@));
    }
    out
}

/// The margin family name is already canonical.
pub proof fn lemma_normalize_margin()
    ensures
        normalize_family("margin"@) == "margin"@,
{
    reveal_strlit("margin");
    reveal_strlit("w");
    reveal_strlit("h");
    reveal_strlit("z");
    reveal_strlit("m");
    reveal_strlit("mx");
    reveal_strlit("my");
    reveal_strlit("ml");
    reveal_strlit("mr");
    reveal_strlit("mt");
    reveal_strlit("mb");
}

/// Compute the canonical family name of a registered prefix.
pub fn normalize_family_name(name: &str) -> (r: String)
    ensures
        r@ == normalize_family(name@),
    decreases name@.len(),
{
    let n = name.unicode_len();
    if n > 0 && name.get_char(0) == '-' {
        let rest = name.substring_char(1, n);
        assert(rest@ =~= name@.skip(1));
        return normalize_family_name(rest);
    }
    if str_eq(name, "w") {
        String::from_str("width")
    } else if str_eq(name, "h") {
        String::from_str("height")
    } else if str_eq(name, "z") {
        String::from_str("z_index")
    } else if str_eq(name, "m") || str_eq(name, "mx") || str_eq(name, "my") || str_eq(name, "ml")
        || str_eq(name, "mr") || str_eq(name, "mt") || str_eq(name, "mb") {
        String::from_str("margin")
    } else {
        name.to_owned()
    }
}

} // verus!
