//! Margin and padding area variants: a short family name (`m`, `px`,
//! `mt`, ...) picks the property and the box side the rule applies to.

use crate::config::decl_line;
use crate::css::block_rule;
use crate::css::make_block_rule;
use crate::strutil::str_eq;
use vstd::prelude::*;

verus! {

/// The box area a one- or two-letter family name addresses.
#[derive(Clone, Copy, Debug, PartialEq, Eq, Structural)]
pub enum Area {
    All,
    Left,
    Right,
    Top,
    Bottom,
    Vertical,
    Horizontal,
    Unknown,
}

/// The CSS property a family name's first letter picks: `p` for padding,
/// `m` for margin.
pub open spec fn property_of(name: Seq<char>) -> Option<Seq<char>> {
    if name.len() > 0 && name[0] == 'p' {
        Some("padding"@)
    } else if name.len() > 0 && name[0] == 'm' {
        Some("margin"@)
    } else {
        None
    }
}

/// Pick the CSS property for a family name.
pub fn get_property(name: &str) -> (r: Option<&'static str>)
    requires
        name@.len() > 0,
    ensures
        match r {
            Some(p) => property_of(name@) == Some(p@),
            None => property_of(name@) is None,
        },
{
    let c = name.get_char(0);
    if c == 'p' {
        Some("padding")
    } else if c == 'm' {
        Some("margin")
    } else {
        None
    }
}

/// The box area a family name addresses: the property letter alone means
/// all sides; a second letter picks a side or an axis.
pub open spec fn area_of(name: Seq<char>) -> Area {
    if name.len() == 1 {
        Area::All
    } else {
        let rest = name.skip(1);
        if rest == "t"@ {
            Area::Top
        } else if rest == "b"@ {
            Area::Bottom
        } else if rest == "l"@ {
            Area::Left
        } else if rest == "r"@ {
            Area::Right
        } else if rest == "x"@ {
            Area::Horizontal
        } else if rest == "y"@ {
            Area::Vertical
        } else {
            Area::Unknown
        }
    }
}

/// Pick the box area for a family name.
pub fn get_area(name: &str) -> (r: Area)
    requires
        name@.len() > 0,
    ensures
        r == area_of(name@),
{
    let n = name.unicode_len();
    if n == 1 {
        return Area::All;
    }
    let rest = name.substring_char(1, n);
    proof {
        assert(rest@ =~= name@.skip(1));
    }
    if str_eq(rest, "t") {
        Area::Top
    } else if str_eq(rest, "b") {
        Area::Bottom
    } else if str_eq(rest, "l") {
        Area::Left
    } else if str_eq(rest, "r") {
        Area::Right
    } else if str_eq(rest, "x") {
        Area::Horizontal
    } else if str_eq(rest, "y") {
        Area::Vertical
    } else {
        Area::Unknown
    }
}

/// The rule an area variant emits: the whole-box form uses the bare
/// family selector; a side form appends the variant and narrows the
/// property; an axis form emits both of its sides.
pub open spec fn variant_rule(name: Seq<char>, variant: Seq<char>, value: Seq<char>) -> Option<
    Seq<char>,
> {
    match property_of(name) {
        None => None,
        Some(prop) => {
            let sel = name + "-"@ + variant;
            match area_of(name) {
                Area::All => Some(block_rule(name, decl_line(prop, value))),
                Area::Top => Some(block_rule(sel, decl_line(prop + "-top"@, value))),
                Area::Bottom => Some(block_rule(sel, decl_line(prop + "-bottom"@, value))),
                Area::Left => Some(block_rule(sel, decl_line(prop + "-left"@, value))),
                Area::Right => Some(block_rule(sel, decl_line(prop + "-right"@, value))),
                Area::Vertical => Some(
                    block_rule(
                        sel,
                        decl_line(prop + "-top"@, value) + decl_line(prop + "-bottom"@, value),
                    ),
                ),
                Area::Horizontal => Some(
                    block_rule(
                        sel,
                        decl_line(prop + "-left"@, value) + decl_line(prop + "-right"@, value),
                    ),
                ),
                Area::Unknown => None,
            }
        },
    }
}

/// Emit the rule for one margin or padding area variant.
pub fn generate_variant(name: &str, variant: &str, value: &str) -> (r: Option<String>)
    requires
        name@.len() > 0,
    ensures
        match r {
            Some(s) => variant_rule(name@, variant@, value@) == Some(s@),
            None => variant_rule(name@, variant@, value@) is None,
        },
{
    let property = match get_property(name) {
        Some(p) => p,
        None => {
            return None;
        },
    };
    let mut sel = name.to_owned();
    sel.append("-");
    sel.append(variant);
    assert(sel@ == name@ + "-"@ + variant@);
    match get_area(name) {
        Area::All => {
            let decls = crate::config::make_decl_line(property, value);
            Some(make_block_rule(name, decls.as_str()))
        },
        Area::Top => Some(side_rule(sel.as_str(), property, "-top", value)),
        Area::Bottom => Some(side_rule(sel.as_str(), property, "-bottom", value)),
        Area::Left => Some(side_rule(sel.as_str(), property, "-left", value)),
        Area::Right => Some(side_rule(sel.as_str(), property, "-right", value)),
        Area::Vertical => {
            let mut decls = sided_decl(property, "-top", value);
            let second = sided_decl(property, "-bottom", value);
            decls.append(second.as_str());
            Some(make_block_rule(sel.as_str(), decls.as_str()))
        },
        Area::Horizontal => {
            let mut decls = sided_decl(property, "-left", value);
            let second = sided_decl(property, "-right", value);
            decls.append(second.as_str());
            Some(make_block_rule(sel.as_str(), decls.as_str()))
        },
        Area::Unknown => None,
    }
}

/// One declaration line whose property carries a side suffix.
fn sided_decl(prop: &str, side: &str, value: &str) -> (r: String)
    ensures
        r@ == decl_line(prop@ + side@, value@),
{
    let mut p = prop.to_owned();
    p.append(side);
    crate::config::make_decl_line(p.as_str(), value)
}

/// One single-declaration rule whose property carries a side suffix.
fn side_rule(sel: &str, prop: &str, side: &str, value: &str) -> (r: String)
    ensures
        r@ == block_rule(sel@, decl_line(prop@ + side@, value@)),
{
    let decls = sided_decl(prop, side, value);
    make_block_rule(sel, decls.as_str())
}

} // verus!
