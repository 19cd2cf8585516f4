//! Construction of the token store from a configuration document.
//!
//! The document must carry a `font_size` table and a `color` table; every
//! other category is optional and defaults to empty. A malformed
//! font-size entry is a hard failure: the engine never runs against a
//! partially built store.

use crate::config::ColorValue;
use crate::config::Config;
use crate::config::FontSize;
use crate::config::Mode;
use crate::config::Plugin;
use crate::document::Doc;
use crate::store::assoc_find;
use crate::strutil::i64_to_string;
use crate::json::json_doc_of;
use crate::strutil::int_text;
use vstd::prelude::*;

verus! {

/// Why a token store could not be built.
#[derive(Clone, Copy, Debug, PartialEq, Eq, Structural)]
pub enum ConfigError {
    /// The source text is not a well-formed document.
    Syntax,
    /// The document's top level is not a table.
    NotATable,
    /// The required `font_size` table is missing.
    MissingFontSize,
    /// A font-size entry is not a (value, line-height) pair.
    MalformedFontSize,
    /// The required `color` table is missing.
    MissingColor,
}

/// The entries of the table stored under `key`, or nothing when the key
/// is absent or holds another shape.
pub open spec fn category_entries(d: Doc, key: Seq<char>) -> Seq<(String, Doc)> {
    match assoc_find(d.entries(), key) {
        Some(t) => t.entries(),
        None => Seq::empty(),
    }
}

/// The text-valued pairs of a table, in order; pairs of another shape
/// are left out.
pub open spec fn text_entries(t: Seq<(String, Doc)>) -> Seq<(String, String)>
    decreases t.len(),
{
    if t.len() == 0 {
        Seq::empty()
    } else {
        let rest = text_entries(t.drop_last());
        match t.last().1 {
            Doc::Text(s) => rest.push((t.last().0, s)),
            _ => rest,
        }
    }
}

/// The single declaration a category value carries: the first pair of
/// its table, when that pair's value is text.
pub open spec fn first_decl(d: Doc) -> Option<(String, String)> {
    match d {
        Doc::Table(t) => if t@.len() > 0 {
            match t@[0].1 {
                Doc::Text(s) => Some((t@[0].0, s)),
                _ => None,
            }
        } else {
            None
        },
        _ => None,
    }
}

/// The single-declaration pairs of a table, in order; entries without a
/// usable declaration are left out.
pub open spec fn decl_entries(t: Seq<(String, Doc)>) -> Seq<(String, (String, String))>
    decreases t.len(),
{
    if t.len() == 0 {
        Seq::empty()
    } else {
        let rest = decl_entries(t.drop_last());
        match first_decl(t.last().1) {
            Some(pv) => rest.push((t.last().0, pv)),
            None => rest,
        }
    }
}

/// A color entry of the store matches a document pair: same key, and a
/// flat text becomes a flat color while a table becomes its palette.
pub open spec fn color_entry_matches(e: (String, ColorValue), d: (String, Doc)) -> bool {
    e.0 == d.0 && match e.1 {
        ColorValue::Flat(v) => d.1 == Doc::Text(v),
        ColorValue::Shades(m) => d.1 matches Doc::Table(t) && m@ == text_entries(t@),
    }
}

/// A document pair contributes a color entry when its value is text or a
/// table.
pub open spec fn color_usable(d: Doc) -> bool {
    d is Text || d is Table
}

/// The color store is the in-order image of the usable document pairs.
pub open spec fn color_matches(c: Seq<(String, ColorValue)>, t: Seq<(String, Doc)>) -> bool
    decreases t.len(),
{
    if t.len() == 0 {
        c.len() == 0
    } else if color_usable(t.last().1) {
        c.len() > 0 && color_entry_matches(c.last(), t.last()) && color_matches(
            c.drop_last(),
            t.drop_last(),
        )
    } else {
        color_matches(c, t.drop_last())
    }
}

/// The views of a font-size pair: the value text and the line-height,
/// which is either an integer written out in decimal or a text.
pub open spec fn font_pair_view(d: Doc) -> Option<(Seq<char>, Seq<char>)> {
    match d {
        Doc::List(l) => if l@.len() < 2 {
            None
        } else {
            match l@[0] {
                Doc::Text(v) => match l@[1] {
                    Doc::Table(t) => match assoc_find(t@, "lineHeight"@) {
                        Some(Doc::Int(n)) => Some((v@, int_text(n as int))),
                        Some(Doc::Text(s)) => Some((v@, s@)),
                        _ => None,
                    },
                    _ => None,
                },
                _ => None,
            }
        },
        _ => None,
    }
}

/// The views of every font-size entry of a table, in order; nothing when
/// any entry is malformed.
pub open spec fn font_entries_view(t: Seq<(String, Doc)>) -> Option<
    Seq<(Seq<char>, (Seq<char>, Seq<char>))>,
>
    decreases t.len(),
{
    if t.len() == 0 {
        Some(Seq::empty())
    } else {
        match font_entries_view(t.drop_last()) {
            Some(rest) => match font_pair_view(t.last().1) {
                Some(p) => Some(rest.push((t.last().0@, p))),
                None => None,
            },
            None => None,
        }
    }
}

/// The view of a built font-size store.
pub open spec fn fonts_view(v: Seq<(String, FontSize)>) -> Seq<
    (Seq<char>, (Seq<char>, Seq<char>)),
> {
    v.map_values(|e: (String, FontSize)| (e.0@, (e.1.value@, e.1.line_height@)))
}

/// The `font_size` table of the document, when it is present and is a
/// table.
pub open spec fn font_size_table(d: Doc) -> Option<Seq<(String, Doc)>> {
    match assoc_find(d.entries(), "font_size"@) {
        Some(Doc::Table(t)) => Some(t@),
        _ => None,
    }
}

/// A malformed entry spoils every longer prefix of the table.
proof fn lemma_font_entries_none(t: Seq<(String, Doc)>, i: int)
    requires
        0 <= i <= t.len(),
        font_entries_view(t.subrange(0, i)) is None,
    ensures
        font_entries_view(t) is None,
    decreases t.len() - i,
{
    if i < t.len() {
        assert(t.subrange(0, i + 1).drop_last() =~= t.subrange(0, i));
        lemma_font_entries_none(t, i + 1);
    } else {
        assert(t.subrange(0, i) =~= t);
    }
}

/// Read the text-valued pairs of the table stored under `key`; an absent
/// or differently shaped category yields the empty store.
pub fn extract_hash_map(obj: &Doc, key: &str) -> (r: Vec<(String, String)>)
    ensures
        r@ == text_entries(category_entries(*obj, key@)),
{
    let table = match obj.get(key) {
        Some(d) => match d {
            Doc::Table(t) => t,
            _ => {
                proof {
                    assert(text_entries(Seq::<(String, Doc)>::empty()) =~= Seq::<
                        (String, String),
                    >::empty());
                }
                return Vec::new();
            },
        },
        None => {
            proof {
                assert(text_entries(Seq::<(String, Doc)>::empty()) =~= Seq::<
                    (String, String),
                >::empty());
            }
            return Vec::new();
        },
    };
    let ghost entries = category_entries(*obj, key@);
    assert(entries == table@);
    collect_text_entries(table)
}

/// Collect the text-valued pairs of one table.
fn collect_text_entries(table: &Vec<(String, Doc)>) -> (r: Vec<(String, String)>)
    ensures
        r@ == text_entries(table@),
{
    let n = table.len();
    let mut out: Vec<(String, String)> = Vec::new();
    let mut i: usize = 0;
    while i < n
        invariant
            i <= n,
            n == table@.len(),
            out@ == text_entries(table@.subrange(0, i as int)),
        decreases n - i,
    {
        proof {
            let pre = table@.subrange(0, i as int);
            let cur = table@.subrange(0, i + 1);
            assert(cur.drop_last() =~= pre);
            assert(cur.last() == table@[i as int]);
        }
        match &table[i].1 {
            Doc::Text(s) => {
                out.push((table[i].0.clone(), s.clone()));
            },
            _ => {},
        }
        i = i + 1;
    }
    proof {
        assert(table@.subrange(0, n as int) =~= table@);
    }
    out
}

/// Read the single-declaration pairs of the table stored under `key`; an
/// absent or differently shaped category yields the empty store.
pub fn extract_object(obj: &Doc, key: &str) -> (r: Vec<(String, (String, String))>)
    ensures
        r@ == decl_entries(category_entries(*obj, key@)),
{
    let table = match obj.get(key) {
        Some(d) => match d {
            Doc::Table(t) => t,
            _ => {
                proof {
                    assert(decl_entries(Seq::<(String, Doc)>::empty()) =~= Seq::<
                        (String, (String, String)),
                    >::empty());
                }
                return Vec::new();
            },
        },
        None => {
            proof {
                assert(decl_entries(Seq::<(String, Doc)>::empty()) =~= Seq::<
                    (String, (String, String)),
                >::empty());
            }
            return Vec::new();
        },
    };
    let n = table.len();
    let mut out: Vec<(String, (String, String))> = Vec::new();
    let mut i: usize = 0;
    while i < n
        invariant
            i <= n,
            n == table@.len(),
            out@ == decl_entries(table@.subrange(0, i as int)),
        decreases n - i,
    {
        proof {
            let pre = table@.subrange(0, i as int);
            let cur = table@.subrange(0, i + 1);
            assert(cur.drop_last() =~= pre);
            assert(cur.last() == table@[i as int]);
        }
        match &table[i].1 {
            Doc::Table(inner) => {
                if inner.len() > 0 {
                    match &inner[0].1 {
                        Doc::Text(s) => {
                            out.push((table[i].0.clone(), (inner[0].0.clone(), s.clone())));
                        },
                        _ => {},
                    }
                }
            },
            _ => {},
        }
        i = i + 1;
    }
    proof {
        assert(table@.subrange(0, n as int) =~= table@);
        assert(category_entries(*obj, key@) == table@);
    }
    out
}

/// Read the color table: flat texts become flat colors, tables become
/// palettes, and anything else is left out.
pub fn extract_colors(table: &Vec<(String, Doc)>) -> (r: Vec<(String, ColorValue)>)
    ensures
        color_matches(r@, table@),
{
    let n = table.len();
    let mut out: Vec<(String, ColorValue)> = Vec::new();
    let mut i: usize = 0;
    while i < n
        invariant
            i <= n,
            n == table@.len(),
            color_matches(out@, table@.subrange(0, i as int)),
        decreases n - i,
    {
        proof {
            let pre = table@.subrange(0, i as int);
            let cur = table@.subrange(0, i + 1);
            assert(cur.drop_last() =~= pre);
            assert(cur.last() == table@[i as int]);
        }
        let ghost before = out@;
        match &table[i].1 {
            Doc::Text(s) => {
                out.push((table[i].0.clone(), ColorValue::Flat(s.clone())));
                proof {
                    assert(out@.drop_last() =~= before);
                }
            },
            Doc::Table(inner) => {
                let shades = collect_text_entries(inner);
                out.push((table[i].0.clone(), ColorValue::Shades(shades)));
                proof {
                    assert(out@.drop_last() =~= before);
                }
            },
            _ => {},
        }
        i = i + 1;
    }
    proof {
        assert(table@.subrange(0, n as int) =~= table@);
    }
    out
}

/// Read the required font-size table: each entry must be a pair of a
/// text value and a table whose `lineHeight` is an integer or a text.
pub fn extract_font_size(obj: &Doc) -> (r: Result<Vec<(String, FontSize)>, ConfigError>)
    ensures
        match r {
            Ok(v) => font_size_table(*obj) matches Some(t) && font_entries_view(t) matches Some(fv)
                && fonts_view(v@) == fv,
            Err(e) => (e == ConfigError::MissingFontSize && font_size_table(*obj) is None) || (e
                == ConfigError::MalformedFontSize && (font_size_table(*obj) matches Some(t)
                && font_entries_view(t) is None)),
        },
{
    let table = match obj.get("font_size") {
        Some(d) => match d {
            Doc::Table(t) => t,
            _ => {
                return Err(ConfigError::MissingFontSize);
            },
        },
        None => {
            return Err(ConfigError::MissingFontSize);
        },
    };
    let n = table.len();
    let mut out: Vec<(String, FontSize)> = Vec::new();
    let mut i: usize = 0;
    while i < n
        invariant
            i <= n,
            n == table@.len(),
            font_size_table(*obj) == Some(table@),
            font_entries_view(table@.subrange(0, i as int)) == Some(fonts_view(out@)),
        decreases n - i,
    {
        proof {
            let pre = table@.subrange(0, i as int);
            let cur = table@.subrange(0, i + 1);
            assert(cur.drop_last() =~= pre);
            assert(cur.last() == table@[i as int]);
        }
        let ghost before = out@;
        let pair = match font_pair_of(&table[i].1) {
            Some(p) => p,
            None => {
                proof {
                    lemma_font_entries_none(table@, i + 1);
                }
                return Err(ConfigError::MalformedFontSize);
            },
        };
        out.push((table[i].0.clone(), pair));
        proof {
            assert(fonts_view(out@) =~= fonts_view(before).push(
                (table@[i as int].0@, (out@.last().1.value@, out@.last().1.line_height@)),
            ));
        }
        i = i + 1;
    }
    proof {
        assert(table@.subrange(0, n as int) =~= table@);
    }
    Ok(out)
}

/// The single-declaration category names, in resolution order.
pub open spec fn utility_names() -> Seq<Seq<char>> {
    seq![
        "flex"@,
        "flex-direction"@,
        "flex-wrap"@,
        "display"@,
        "visibility"@,
        "position"@,
        "float"@,
        "clear"@,
        "object_fit"@,
        "overflow"@,
        "overscroll_behavior"@,
        "box-decoration-break"@,
        "columns"@,
    ]
}

/// The plugin family names that carry their own value map.
pub open spec fn family_names() -> Seq<Seq<char>> {
    seq!["basis"@, "margin"@, "z_index"@, "width"@, "height"@]
}

/// Read every single-declaration category, in resolution order.
pub fn extract(obj: &Doc) -> (r: Vec<(String, Vec<(String, (String, String))>)>)
    ensures
        r@.len() == utility_names().len(),
        forall|i: int|
            0 <= i < r@.len() ==> (#[trigger] r@[i]).0@ == utility_names()[i] && r@[i].1@
                == decl_entries(category_entries(*obj, utility_names()[i])),
{
    let mut out: Vec<(String, Vec<(String, (String, String))>)> = Vec::new();
    out.push((String::from_str("flex"), extract_object(obj, "flex")));
    out.push((String::from_str("flex-direction"), extract_object(obj, "flex-direction")));
    out.push((String::from_str("flex-wrap"), extract_object(obj, "flex-wrap")));
    out.push((String::from_str("display"), extract_object(obj, "display")));
    out.push((String::from_str("visibility"), extract_object(obj, "visibility")));
    out.push((String::from_str("position"), extract_object(obj, "position")));
    out.push((String::from_str("float"), extract_object(obj, "float")));
    out.push((String::from_str("clear"), extract_object(obj, "clear")));
    out.push((String::from_str("object_fit"), extract_object(obj, "object_fit")));
    out.push((String::from_str("overflow"), extract_object(obj, "overflow")));
    out.push((String::from_str("overscroll_behavior"), extract_object(obj, "overscroll_behavior")));
    out.push(
        (String::from_str("box-decoration-break"), extract_object(obj, "box-decoration-break")),
    );
    out.push((String::from_str("columns"), extract_object(obj, "columns")));
    out
}

/// Read the spacing scale and every family-specific value map.
pub fn extract_base(obj: &Doc) -> (r: (
    Vec<(String, Vec<(String, String)>)>,
    Vec<(String, String)>,
))
    ensures
        r.1@ == text_entries(category_entries(*obj, "spacing"@)),
        r.0@.len() == family_names().len(),
        forall|i: int|
            0 <= i < r.0@.len() ==> (#[trigger] r.0@[i]).0@ == family_names()[i] && r.0@[i].1@
                == text_entries(category_entries(*obj, family_names()[i])),
{
    let spacing = extract_hash_map(obj, "spacing");
    let mut base: Vec<(String, Vec<(String, String)>)> = Vec::new();
    base.push((String::from_str("basis"), extract_hash_map(obj, "basis")));
    base.push((String::from_str("margin"), extract_hash_map(obj, "margin")));
    base.push((String::from_str("z_index"), extract_hash_map(obj, "z_index")));
    base.push((String::from_str("width"), extract_hash_map(obj, "width")));
    base.push((String::from_str("height"), extract_hash_map(obj, "height")));
    (base, spacing)
}

/// The text value of a text node.
pub open spec fn text_string(d: Doc) -> String {
    choose|s: String| d == Doc::Text(s)
}

/// Every element of the list is a text node.
pub open spec fn all_texts(l: Seq<Doc>) -> bool {
    forall|i: int| 0 <= i < l.len() ==> (#[trigger] l[i]) is Text
}

/// The texts of a list of text nodes.
pub open spec fn texts_seq(l: Seq<Doc>) -> Seq<String> {
    l.map_values(|d: Doc| text_string(d))
}

/// A document value is a usable property list: a list of texts.
pub open spec fn props_ok(d: Doc) -> bool {
    d matches Doc::List(l) && all_texts(l@)
}

/// The view of a plugin table: key views paired with property lists.
pub open spec fn table_view(t: Seq<(String, Vec<String>)>) -> Seq<(Seq<char>, Seq<String>)> {
    t.map_values(|e: (String, Vec<String>)| (e.0@, e.1@))
}

/// A registered pair is usable when it holds a text key and a usable
/// property list.
pub open spec fn pair_usable(item: Seq<Doc>) -> bool {
    item.len() >= 2 && item[0] is Text && props_ok(item[1])
}

/// The table rows one registered pair contributes: its key (twice, with
/// a leading dash added, when the mode carries negatives) mapped to its
/// property list; an unusable pair contributes nothing.
pub open spec fn pair_rows(item: Seq<Doc>, mode: Mode) -> Seq<(Seq<char>, Seq<String>)> {
    if pair_usable(item) {
        let key = text_string(item[0])@;
        let props = texts_seq(item[1]->List_0@);
        match mode {
            Mode::WithNegative => seq![(key, props), ("-"@ + key, props)],
            Mode::OnlyPositive => seq![(key, props)],
        }
    } else {
        Seq::empty()
    }
}

/// The rows a pair-valued document node contributes.
pub open spec fn node_rows(d: Doc, mode: Mode) -> Seq<(Seq<char>, Seq<String>)> {
    match d {
        Doc::List(l) => pair_rows(l@, mode),
        _ => Seq::empty(),
    }
}

/// The rows of a list of registered pairs, in order.
pub open spec fn deep_rows(items: Seq<Doc>, mode: Mode) -> Seq<(Seq<char>, Seq<String>)>
    decreases items.len(),
{
    if items.len() == 0 {
        Seq::empty()
    } else {
        deep_rows(items.drop_last(), mode) + node_rows(items.last(), mode)
    }
}

/// The rows one declaration item contributes: a pair when its first
/// element is a text key, a list of pairs otherwise.
pub open spec fn item_rows(item: Doc, mode: Mode) -> Seq<(Seq<char>, Seq<String>)> {
    match item {
        Doc::List(l) => if l@.len() > 0 && l@[0] is Text {
            pair_rows(l@, mode)
        } else {
            deep_rows(l@, mode)
        },
        _ => Seq::empty(),
    }
}

/// Every declaration item is a nonempty list.
pub open spec fn family_ok(items: Seq<Doc>) -> bool {
    forall|i: int|
        0 <= i < items.len() ==> ((#[trigger] items[i]) matches Doc::List(l) && l@.len() > 0)
}

/// The rows of a whole family declaration, in order.
pub open spec fn family_rows(items: Seq<Doc>, mode: Mode) -> Seq<(Seq<char>, Seq<String>)>
    decreases items.len(),
{
    if items.len() == 0 {
        Seq::empty()
    } else {
        family_rows(items.drop_last(), mode) + item_rows(items.last(), mode)
    }
}

/// The plugin table a family declaration builds: nothing when the
/// `plugins` table or the family is missing, or when any declaration
/// item is not a nonempty list.
pub open spec fn plugin_table_rows(d: Doc, fam: Seq<char>, mode: Mode) -> Option<
    Seq<(Seq<char>, Seq<String>)>,
> {
    match assoc_find(d.entries(), "plugins"@) {
        Some(p) => match assoc_find(p.entries(), fam) {
            Some(Doc::List(items)) => if family_ok(items@) {
                Some(family_rows(items@, mode))
            } else {
                None
            },
            _ => None,
        },
        None => None,
    }
}

/// Collect the property list of a usable list-of-texts node.
fn collect_props(d: &Doc) -> (r: Option<Vec<String>>)
    ensures
        match r {
            Some(p) => props_ok(*d) && p@ == texts_seq(d->List_0@),
            None => !props_ok(*d),
        },
{
    let l = match d {
        Doc::List(l) => l,
        _ => {
            return None;
        },
    };
    let n = l.len();
    let mut out: Vec<String> = Vec::new();
    let mut i: usize = 0;
    while i < n
        invariant
            i <= n,
            n == l@.len(),
            *d == Doc::List(*l),
            all_texts(l@.subrange(0, i as int)),
            out@ == texts_seq(l@.subrange(0, i as int)),
        decreases n - i,
    {
        match &l[i] {
            Doc::Text(s) => {
                out.push(s.clone());
            },
            _ => {
                proof {
                    assert(!(l@[i as int] is Text));
                    assert(!all_texts(l@));
                }
                return None;
            },
        }
        proof {
            let pre = l@.subrange(0, i as int);
            let cur = l@.subrange(0, i + 1);
            assert(forall|j: int| 0 <= j < i ==> cur[j] == pre[j]);
            assert(cur[i as int] == l@[i as int]);
            assert(text_string(l@[i as int])@ == l@[i as int]->Text_0@);
            assert(out@ =~= texts_seq(cur));
        }
        i = i + 1;
    }
    proof {
        assert(l@.subrange(0, n as int) =~= l@);
        assert(d->List_0 == *l);
    }
    Some(out)
}

/// Copy a property list.
fn clone_strings(v: &Vec<String>) -> (r: Vec<String>)
    ensures
        r@ == v@,
{
    let n = v.len();
    let mut out: Vec<String> = Vec::new();
    let mut i: usize = 0;
    while i < n
        invariant
            i <= n,
            n == v@.len(),
            out@ == v@.subrange(0, i as int),
        decreases n - i,
    {
        out.push(v[i].clone());
        proof {
            assert(out@ =~= v@.subrange(0, i + 1));
        }
        i = i + 1;
    }
    proof {
        assert(v@.subrange(0, n as int) =~= v@);
    }
    out
}

/// Register one pair into a plugin table: once, or twice with a leading
/// dash, as the mode asks. An unusable pair registers nothing.
pub fn build_value(data: &mut Vec<(String, Vec<String>)>, item: &Doc, mode: Mode) -> (r: Option<()>)
    ensures
        table_view(final(data)@) == table_view(old(data)@) + node_rows(*item, mode),
{
    let l = match item {
        Doc::List(l) => l,
        _ => {
            proof {
                assert(table_view(data@) =~= table_view(data@) + node_rows(*item, mode));
            }
            return None;
        },
    };
    if l.len() < 2 {
        proof {
            assert(table_view(data@) =~= table_view(data@) + node_rows(*item, mode));
        }
        return None;
    }
    let key = match &l[0] {
        Doc::Text(s) => s,
        _ => {
            proof {
                assert(table_view(data@) =~= table_view(data@) + node_rows(*item, mode));
            }
            return None;
        },
    };
    let props = match collect_props(&l[1]) {
        Some(p) => p,
        None => {
            proof {
                assert(table_view(data@) =~= table_view(data@) + node_rows(*item, mode));
            }
            return None;
        },
    };
    proof {
        assert(l@[0] == Doc::Text(*key));
        assert(exists|s: String| l@[0] == Doc::Text(s));
        assert(text_string(l@[0])@ == key@);
        assert(pair_usable(l@));
    }
    match mode {
        Mode::WithNegative => {
            let props_again = clone_strings(&props);
            let ghost before = data@;
            data.push((key.clone(), props));
            let mut negkey = String::from_str("-");
            negkey.append(key.as_str());
            data.push((negkey, props_again));
            proof {
                assert(table_view(data@) =~= table_view(before) + node_rows(*item, mode));
            }
        },
        Mode::OnlyPositive => {
            let ghost before = data@;
            data.push((key.clone(), props));
            proof {
                assert(table_view(data@) =~= table_view(before) + node_rows(*item, mode));
            }
        },
    }
    Some(())
}

/// Build the plugin table of one family from the `plugins` declaration.
pub fn create_utility(name: &str, obj: &Doc, mode: Mode) -> (r: Option<Vec<(String, Vec<String>)>>)
    ensures
        match r {
            Some(t) => plugin_table_rows(*obj, name@, mode) == Some(table_view(t@)),
            None => plugin_table_rows(*obj, name@, mode) is None,
        },
{
    let plugins = match obj.get("plugins") {
        Some(p) => p,
        None => {
            return None;
        },
    };
    let arr = match plugins.get(name) {
        Some(d) => match d {
            Doc::List(items) => items,
            _ => {
                return None;
            },
        },
        None => {
            return None;
        },
    };
    let mut data: Vec<(String, Vec<String>)> = Vec::new();
    let n = arr.len();
    let mut i: usize = 0;
    while i < n
        invariant
            i <= n,
            n == arr@.len(),
            assoc_find(obj.entries(), "plugins"@) == Some(*plugins),
            assoc_find(plugins.entries(), name@) == Some(Doc::List(*arr)),
            family_ok(arr@.subrange(0, i as int)),
            table_view(data@) == family_rows(arr@.subrange(0, i as int), mode),
        decreases n - i,
    {
        proof {
            let pre = arr@.subrange(0, i as int);
            let cur = arr@.subrange(0, i + 1);
            assert(cur.drop_last() =~= pre);
            assert(cur.last() == arr@[i as int]);
            assert(forall|j: int| 0 <= j < i ==> cur[j] == pre[j]);
        }
        let item_list = match &arr[i] {
            Doc::List(l) => l,
            _ => {
                proof {
                    assert(!(arr@[i as int] matches Doc::List(l) && l@.len() > 0));
                    assert(!family_ok(arr@));
                }
                return None;
            },
        };
        let m = item_list.len();
        if m == 0 {
            proof {
                assert(!(arr@[i as int] matches Doc::List(l) && l@.len() > 0));
                assert(!family_ok(arr@));
            }
            return None;
        }
        match &item_list[0] {
            Doc::Text(_) => {
                let _ = build_value(&mut data, &arr[i], mode);
                proof {
                    assert(item_rows(arr@[i as int], mode) == pair_rows(item_list@, mode));
                }
            },
            _ => {
                let mut j: usize = 0;
                while j < m
                    invariant
                        j <= m,
                        i < n,
                        n == arr@.len(),
                        m == item_list@.len(),
                        table_view(data@) == family_rows(arr@.subrange(0, i as int), mode)
                            + deep_rows(item_list@.subrange(0, j as int), mode),
                    decreases m - j,
                {
                    let _ = build_value(&mut data, &item_list[j], mode);
                    proof {
                        let dpre = item_list@.subrange(0, j as int);
                        let dcur = item_list@.subrange(0, j + 1);
                        assert(dcur.drop_last() =~= dpre);
                        assert(dcur.last() == item_list@[j as int]);
                    }
                    j = j + 1;
                }
                proof {
                    assert(item_list@.subrange(0, m as int) =~= item_list@);
                    assert(!(item_list@[0] is Text));
                    assert(item_rows(arr@[i as int], mode) == deep_rows(item_list@, mode));
                }
            },
        }
        i = i + 1;
    }
    proof {
        assert(arr@.subrange(0, n as int) =~= arr@);
    }
    Some(data)
}

/// The plugin families, in resolution order, each with its registration
/// mode.
pub open spec fn plugin_families() -> Seq<(Seq<char>, Mode)> {
    seq![
        ("margin"@, Mode::WithNegative),
        ("padding"@, Mode::OnlyPositive),
        ("width"@, Mode::OnlyPositive),
        ("height"@, Mode::OnlyPositive),
        ("inset"@, Mode::WithNegative),
        ("z_index"@, Mode::WithNegative),
        ("basis"@, Mode::OnlyPositive),
    ]
}

/// The plugin table a family builds, with a failed declaration read as
/// the empty table.
pub open spec fn plugin_rows_or_empty(d: Doc, fam: Seq<char>, mode: Mode) -> Seq<
    (Seq<char>, Seq<String>),
> {
    match plugin_table_rows(d, fam, mode) {
        Some(rows) => rows,
        None => Seq::empty(),
    }
}

/// The `color` table of the document, when it is present and is a table.
pub open spec fn color_table(d: Doc) -> Option<Seq<(String, Doc)>> {
    match assoc_find(d.entries(), "color"@) {
        Some(Doc::Table(t)) => Some(t@),
        _ => None,
    }
}

/// A built store holds exactly what the document declares: the required
/// font sizes and colors, every optional category, the merged break
/// namespace, the family value maps, the single-declaration categories in
/// order, and the plugin tables in order.
pub open spec fn config_matches(d: Doc, c: Config) -> bool {
    &&& font_size_table(d) matches Some(ft) && font_entries_view(ft) == Some(
        fonts_view(c.font_size@),
    )
    &&& c.font_weight@ == text_entries(category_entries(d, "font_weight"@))
    &&& c.spacing@ == text_entries(category_entries(d, "spacing"@))
    &&& c.line_height@ == text_entries(category_entries(d, "lineHeight"@))
    &&& c.aspect_ratio@ == text_entries(category_entries(d, "aspectRatio"@))
    &&& c.family_values@.len() == family_names().len()
    &&& forall|i: int|
        0 <= i < c.family_values@.len() ==> (#[trigger] c.family_values@[i]).0@ == family_names()[i]
            && c.family_values@[i].1@ == text_entries(category_entries(d, family_names()[i]))
    &&& c.break_point@ == decl_entries(category_entries(d, "break-before"@)) + decl_entries(
        category_entries(d, "break-after"@),
    ) + decl_entries(category_entries(d, "break-inside"@))
    &&& color_table(d) matches Some(ct) && color_matches(c.color@, ct)
    &&& c.utility@.len() == utility_names().len()
    &&& forall|i: int|
        0 <= i < c.utility@.len() ==> (#[trigger] c.utility@[i]).0@ == utility_names()[i]
            && c.utility@[i].1@ == decl_entries(category_entries(d, utility_names()[i]))
    &&& c.plugins@.len() == plugin_families().len()
    &&& forall|i: int|
        0 <= i < c.plugins@.len() ==> (#[trigger] c.plugins@[i]).name@ == plugin_families()[i].0
            && table_view(c.plugins@[i].table@) == plugin_rows_or_empty(
            d,
            plugin_families()[i].0,
            plugin_families()[i].1,
        )
}

/// How one build attempt relates to its document: a store is built if and
/// only if the document is a table that carries a well-formed `font_size`
/// table and a `color` table, and the store then holds what the document
/// declares.
pub open spec fn build_matches(d: Doc, r: Result<Config, ConfigError>) -> bool {
    match r {
        Ok(c) => d is Table && config_matches(d, c),
        Err(e) => match e {
            ConfigError::NotATable => !(d is Table),
            ConfigError::MissingFontSize => d is Table && font_size_table(d) is None,
            ConfigError::MalformedFontSize => d is Table && (font_size_table(d) matches Some(t)
                && font_entries_view(t) is None),
            ConfigError::MissingColor => d is Table && (font_size_table(d) matches Some(t)
                && font_entries_view(t) is Some) && color_table(d) is None,
            ConfigError::Syntax => false,
        },
    }
}

/// Build one plugin family table, reading a failed declaration as empty.
fn build_plugin(name: &str, obj: &Doc, mode: Mode) -> (r: Plugin)
    ensures
        r.name@ == name@,
        table_view(r.table@) == plugin_rows_or_empty(*obj, name@, mode),
{
    let table = match create_utility(name, obj, mode) {
        Some(t) => t,
        None => Vec::new(),
    };
    proof {
        assert(table_view(Seq::<(String, Vec<String>)>::empty()) =~= Seq::<
            (Seq<char>, Seq<String>),
        >::empty());
    }
    Plugin { name: name.to_owned(), table }
}

/// Build the token store from a configuration document.
pub fn parse_doc(doc: &Doc) -> (r: Result<Config, ConfigError>)
    ensures
        build_matches(*doc, r),
{
    match doc {
        Doc::Table(_) => {},
        _ => {
            return Err(ConfigError::NotATable);
        },
    }
    let font_size = match extract_font_size(doc) {
        Ok(v) => v,
        Err(e) => {
            return Err(e);
        },
    };
    let color = match doc.get("color") {
        Some(d) => match d {
            Doc::Table(t) => extract_colors(t),
            _ => {
                return Err(ConfigError::MissingColor);
            },
        },
        None => {
            return Err(ConfigError::MissingColor);
        },
    };
    let (family_values, spacing) = extract_base(doc);
    let mut break_point = extract_object(doc, "break-before");
    let mut after = extract_object(doc, "break-after");
    let mut inside = extract_object(doc, "break-inside");
    let ghost before_parts = (break_point@, after@, inside@);
    break_point.append(&mut after);
    break_point.append(&mut inside);
    proof {
        assert(break_point@ =~= before_parts.0 + before_parts.1 + before_parts.2);
    }
    let utility = extract(doc);
    let mut plugins: Vec<Plugin> = Vec::new();
    plugins.push(build_plugin("margin", doc, Mode::WithNegative));
    plugins.push(build_plugin("padding", doc, Mode::OnlyPositive));
    plugins.push(build_plugin("width", doc, Mode::OnlyPositive));
    plugins.push(build_plugin("height", doc, Mode::OnlyPositive));
    plugins.push(build_plugin("inset", doc, Mode::WithNegative));
    plugins.push(build_plugin("z_index", doc, Mode::WithNegative));
    plugins.push(build_plugin("basis", doc, Mode::OnlyPositive));
    let config = Config {
        font_size,
        font_weight: extract_hash_map(doc, "font_weight"),
        spacing,
        line_height: extract_hash_map(doc, "lineHeight"),
        aspect_ratio: extract_hash_map(doc, "aspectRatio"),
        family_values,
        break_point,
        color,
        utility,
        plugins,
    };
    Ok(config)
}

/// Parse configuration text and build the token store from it: the text
/// must denote a document from which a store can be built.
pub fn parse(source: &str) -> (r: Result<Config, ConfigError>)
    ensures
        match json_doc_of(source@) {
            Some(d) => build_matches(d, r),
            None => r == Result::<Config, ConfigError>::Err(ConfigError::Syntax),
        },
{
    let doc = match crate::json::parse_json_text(source) {
        Some(d) => d,
        None => {
            return Err(ConfigError::Syntax);
        },
    };
    parse_doc(&doc)
}

/// Build one font-size pair from its document value.
fn font_pair_of(d: &Doc) -> (r: Option<FontSize>)
    ensures
        match r {
            Some(f) => font_pair_view(*d) == Some((f.value@, f.line_height@)),
            None => font_pair_view(*d) is None,
        },
{
    let l = match d {
        Doc::List(l) => l,
        _ => {
            return None;
        },
    };
    if l.len() < 2 {
        return None;
    }
    let value = match &l[0] {
        Doc::Text(v) => v,
        _ => {
            return None;
        },
    };
    let height = match &l[1] {
        Doc::Table(_) => {
            match l[1].get("lineHeight") {
                Some(Doc::Int(n)) => i64_to_string(*n),
                Some(Doc::Text(s)) => s.clone(),
                _ => {
                    return None;
                },
            }
        },
        _ => {
            return None;
        },
    };
    Some(FontSize { value: value.clone(), line_height: height })
}

} // verus!
