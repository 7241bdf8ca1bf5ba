//! Which entities are light sources, and the plain facts read from them.
use vstd::prelude::*;
use crate::lut::LightKind;
use crate::rules::glass_material;
use crate::text::{decimal, push_char, push_decimal, sanitize_name, sanitized, same_text};

verus! {

/// The shape of light an entity class emits, if it is a light source that
/// takes part: an area source always, a point or spot source only when its
/// `pbr_enabled` key is `1`.
pub open spec fn light_kind_of(classname: Seq<char>, pbr_enabled: Option<Seq<char>>) -> Option<
    LightKind,
> {
    if classname == "func_ggx_area"@ {
        Some(LightKind::Rect)
    } else if pbr_enabled != Some("1"@) {
        None
    } else if classname == "light"@ {
        Some(LightKind::Point)
    } else if classname == "light_spot"@ {
        Some(LightKind::Spot)
    } else {
        None
    }
}

pub open spec fn opt_view(o: Option<&str>) -> Option<Seq<char>> {
    match o {
        Some(s) => Some(s@),
        None => None,
    }
}

pub fn light_kind(classname: &str, pbr_enabled: Option<&str>) -> (r: Option<LightKind>)
    ensures
        r == light_kind_of(classname@, opt_view(pbr_enabled)),
{
    if same_text(classname, "func_ggx_area") {
        return Some(LightKind::Rect);
    }
    let enabled = match pbr_enabled {
        Some(v) => same_text(v, "1"),
        None => false,
    };
    if !enabled {
        return None;
    }
    if same_text(classname, "light") {
        Some(LightKind::Point)
    } else if same_text(classname, "light_spot") {
        Some(LightKind::Spot)
    } else {
        None
    }
}

pub open spec fn is_digit(c: char) -> bool {
    '0' <= c && c <= '9'
}

/// The number that a run of decimal digits denotes.
pub open spec fn digits_value(s: Seq<char>) -> int
    decreases s.len(),
{
    if s.len() == 0 {
        0
    } else {
        digits_value(s.drop_last()) * 10 + (s.last() as int - '0' as int)
    }
}

/// `str::parse::<u32>`: an optional `+`, then one or more decimal digits
/// whose value fits in 32 bits.
pub open spec fn parsed_u32(s: Seq<char>) -> Option<u32> {
    let d = unsigned_part(s);
    if d.len() > 0 && all_digits(d) && digits_value(d) <= u32::MAX {
        Some(digits_value(d) as u32)
    } else {
        None
    }
}

/// The text after an optional leading `+`.
pub open spec fn unsigned_part(s: Seq<char>) -> Seq<char> {
    if s.len() > 0 && s[0] == '+' {
        s.drop_first()
    } else {
        s
    }
}

pub open spec fn all_digits(d: Seq<char>) -> bool {
    forall|i: int| 0 <= i < d.len() ==> is_digit(#[trigger] d[i])
}

proof fn lemma_digits_nonneg(s: Seq<char>)
    requires
        forall|i: int| 0 <= i < s.len() ==> is_digit(#[trigger] s[i]),
    ensures
        digits_value(s) >= 0,
    decreases s.len(),
{
    if s.len() > 0 {
        lemma_digits_nonneg(s.drop_last());
    }
}

/// Read an unsigned 32-bit decimal number.
pub fn parse_u32(s: &str) -> (r: Option<u32>)
    ensures
        r == parsed_u32(s@),
{
    let n = s.unicode_len();
    let start: usize = if n > 0 && s.get_char(0) == '+' {
        1
    } else {
        0
    };
    let ghost d = unsigned_part(s@);
    assert(d =~= s@.subrange(start as int, n as int));
    if start == n {
        return None;
    }
    let cap: u64 = 0x1_0000_0000;
    let mut acc: u64 = 0;
    let mut i: usize = start;
    while i < n
        invariant
            n == s@.len(),
            start <= i <= n,
            d == s@.subrange(start as int, n as int),
            d == unsigned_part(s@),
            cap == 0x1_0000_0000,
            forall|t: int| start <= t < i ==> is_digit(#[trigger] s@[t]),
            acc as int == if digits_value(s@.subrange(start as int, i as int)) < cap {
                digits_value(s@.subrange(start as int, i as int))
            } else {
                cap as int
            },
        decreases n - i,
    {
        let c = s.get_char(i);
        if !('0' <= c && c <= '9') {
            assert(d[i - start] == s@[i as int]);
            assert(!is_digit(d[i - start]));
            assert(!all_digits(d));
            return None;
        }
        let ghost prefix = s@.subrange(start as int, i as int);
        assert(s@.subrange(start as int, i + 1).drop_last() =~= prefix);
        assert forall|t: int| 0 <= t < prefix.len() implies is_digit(#[trigger] prefix[t]) by {
            assert(prefix[t] == s@[start + t]);
        }
        proof {
            lemma_digits_nonneg(prefix);
        }
        let digit = (c as u32 - '0' as u32) as u64;
        acc = if acc >= cap {
            cap
        } else {
            let next = acc * 10 + digit;
            if next >= cap {
                cap
            } else {
                next
            }
        };
        i = i + 1;
    }
    assert(s@.subrange(start as int, n as int) == d);
    assert forall|t: int| 0 <= t < d.len() implies is_digit(#[trigger] d[t]) by {
        assert(d[t] == s@[start + t]);
    }
    if acc >= cap {
        None
    } else {
        Some(acc as u32)
    }
}

/// A light starts dark when its spawn flags parse and have the lowest bit set.
pub open spec fn starts_dark(spawnflags: Option<Seq<char>>) -> bool {
    match spawnflags {
        Some(f) => match parsed_u32(f) {
            Some(v) => v % 2 == 1,
            None => false,
        },
        None => false,
    }
}

pub fn initially_dark(spawnflags: Option<&str>) -> (r: bool)
    ensures
        r == starts_dark(opt_view(spawnflags)),
{
    match spawnflags {
        Some(f) => match parse_u32(f) {
            Some(v) => v % 2 == 1,
            None => false,
        },
        None => false,
    }
}

/// A light's id: its target name without dots, hyphens and spaces, or else
/// its entity id.
pub open spec fn debug_id_of(targetname: Option<Seq<char>>, id: nat) -> Seq<char> {
    match targetname {
        Some(t) => sanitized(t),
        None => decimal(id),
    }
}

pub fn light_debug_id(targetname: Option<&str>, id: u64) -> (r: String)
    ensures
        r@ == debug_id_of(opt_view(targetname), id as nat),
{
    match targetname {
        Some(t) => sanitize_name(t),
        None => {
            let mut r = String::new();
            push_decimal(&mut r, id);
            assert(r@ =~= decimal(id as nat));
            r
        },
    }
}

/// A value of `1` switches a flag key on.
pub fn flag_set(value: Option<&str>) -> (r: bool)
    ensures
        r == (opt_view(value) == Some("1"@)),
{
    match value {
        Some(v) => same_text(v, "1"),
        None => false,
    }
}

/// A blocker baked beside a two-sided rect light is a fizzler (flag 2);
/// every other blocker has flag 1.
pub fn blocker_flag(kind: LightKind, bidirectional: bool) -> (r: u8)
    ensures
        r == if kind == LightKind::Rect && bidirectional {
            2u8
        } else {
            1u8
        },
{
    match kind {
        LightKind::Rect => if bidirectional {
            2
        } else {
            1
        },
        _ => 1,
    }
}

/// A colour override other than `-1 -1 -1` replaces the light's colour.
pub fn overrides_color(value: &str) -> (r: bool)
    ensures
        r == (value@ != "-1 -1 -1"@),
{
    !same_text(value, "-1 -1 -1")
}

/// A detail brush entity collides unless one of its faces is glass.
pub open spec fn collides(classname: Seq<char>, materials: Seq<String>) -> bool {
    classname == "func_detail"@ && forall|i: int|
        0 <= i < materials.len() ==> !glass_material(#[trigger] materials[i]@)
}

/// Whether an entity's brushes join the collision world, given its class and
/// the materials of all its faces.
pub fn is_collision_entity(classname: &str, materials: &Vec<String>) -> (r: bool)
    ensures
        r == collides(classname@, materials@),
{
    if !same_text(classname, "func_detail") {
        return false;
    }
    let mut i: usize = 0;
    while i < materials.len()
        invariant
            i <= materials@.len(),
            forall|t: int| 0 <= t < i ==> !glass_material(#[trigger] materials@[t]@),
        decreases materials@.len() - i,
    {
        if crate::rules::is_glass_material(materials[i].as_str()) {
            return false;
        }
        i = i + 1;
    }
    true
}

/// The key of a light in the script's light table: `_` and its id with dots
/// turned to underscores.
pub fn script_light_key(id: &str) -> (r: String)
    ensures
        r@ == seq!['_'] + crate::text::replaced(id@, '.', '_'),
{
    let rest = crate::text::replace_char(id, '.', '_');
    let mut r = String::new();
    push_char(&mut r, '_');
    r.append(rest.as_str());
    assert(r@ =~= seq!['_'] + rest@);
    r
}

} // verus!
