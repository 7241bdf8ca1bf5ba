//! Rules on names: which materials block or cannot be hit, which entity
//! classes are lights or tagged surfaces, and the names and paths the
//! pipeline gives to what it makes.
use vstd::prelude::*;
use crate::text::{
    contains_text, decimal, has_sub, lower_of, lowercase, push_decimal, replace_char, replaced,
};

verus! {

/// The material that marks the face of a surface to patch.
pub const TARGET_MATERIAL: &'static str = "tools/toolspbr";

/// `c` with an ASCII capital turned to its small letter.
pub open spec fn ascii_lower(c: char) -> char {
    if 'A' <= c && c <= 'Z' {
        (((c as u8) + 32) as u8) as char
    } else {
        c
    }
}

/// Equal when ASCII letters are compared without case.
pub open spec fn same_ignoring_ascii_case(a: Seq<char>, b: Seq<char>) -> bool {
    a.len() == b.len() && forall|i: int| 0 <= i < a.len() ==> ascii_lower(a[i]) == ascii_lower(b[i])
}

fn ascii_lower_exec(c: char) -> (r: char)
    ensures
        r == ascii_lower(c),
{
    if 'A' <= c && c <= 'Z' {
        ((c as u8) + 32) as char
    } else {
        c
    }
}

/// Compare without regard to the case of ASCII letters.
pub fn eq_ignore_ascii_case(a: &str, b: &str) -> (r: bool)
    ensures
        r == same_ignoring_ascii_case(a@, b@),
{
    let n = a.unicode_len();
    if n != b.unicode_len() {
        return false;
    }
    let mut i: usize = 0;
    while i < n
        invariant
            n == a@.len(),
            n == b@.len(),
            i <= n,
            forall|t: int| 0 <= t < i ==> ascii_lower(a@[t]) == ascii_lower(b@[t]),
        decreases n - i,
    {
        if ascii_lower_exec(a.get_char(i)) != ascii_lower_exec(b.get_char(i)) {
            return false;
        }
        i = i + 1;
    }
    true
}

/// A glass material never blocks light.
pub open spec fn glass_material(m: Seq<char>) -> bool {
    has_sub(lower_of(m), "glass"@)
}

/// A tool material other than nodraw and the blocker texture cannot be hit
/// by a closest-hit trace.
pub open spec fn untraceable_material(m: Seq<char>) -> bool {
    has_sub(lower_of(m), "tools"@) && !has_sub(lower_of(m), "nodraw"@) && !has_sub(
        lower_of(m),
        "pbr_block"@,
    )
}

pub fn is_glass_material(m: &str) -> (r: bool)
    ensures
        r == glass_material(m@),
{
    let low = lowercase(m);
    contains_text(low.as_str(), "glass")
}

pub fn is_untraceable_material(m: &str) -> (r: bool)
    ensures
        r == untraceable_material(m@),
{
    let low = lowercase(m);
    contains_text(low.as_str(), "tools") && !contains_text(low.as_str(), "nodraw")
        && !contains_text(low.as_str(), "pbr_block")
}

/// The face material that marks a surface's patched face.
pub fn is_target_material(m: &str) -> (r: bool)
    ensures
        r == same_ignoring_ascii_case(m@, TARGET_MATERIAL@),
{
    eq_ignore_ascii_case(m, TARGET_MATERIAL)
}

/// A class of the physically based entities, which a final map must not keep.
pub open spec fn pbr_class(c: Seq<char>) -> bool {
    has_sub(lower_of(c), "func_ggx"@)
}

pub fn is_pbr_class(c: &str) -> (r: bool)
    ensures
        r == pbr_class(c@),
{
    let low = lowercase(c);
    contains_text(low.as_str(), "func_ggx")
}

/// The positions among the first `n` classes that the strip pass keeps.
pub open spec fn kept_of(classes: Seq<String>, n: nat) -> Seq<usize>
    decreases n,
{
    if n == 0 {
        Seq::empty()
    } else if pbr_class(classes[n - 1]@) {
        kept_of(classes, (n - 1) as nat)
    } else {
        kept_of(classes, (n - 1) as nat).push((n - 1) as usize)
    }
}

/// The strip pass: the positions of the entities to keep, given each
/// entity's class (empty where it has none), in order.
pub fn strip_pbr_entities(classnames: &Vec<String>) -> (keep: Vec<usize>)
    ensures
        keep@ == kept_of(classnames@, classnames@.len()),
{
    let mut keep: Vec<usize> = Vec::new();
    let mut i: usize = 0;
    while i < classnames.len()
        invariant
            i <= classnames@.len(),
            keep@ == kept_of(classnames@, i as nat),
        decreases classnames@.len() - i,
    {
        if !is_pbr_class(classnames[i].as_str()) {
            keep.push(i);
        }
        i = i + 1;
    }
    keep
}

proof fn lemma_kept(classes: Seq<String>, n: nat)
    requires
        n <= classes.len(),
        n <= usize::MAX + 1,
    ensures
        forall|k: int|
            0 <= k < kept_of(classes, n).len() ==> (#[trigger] kept_of(classes, n)[k]) < n
                && !pbr_class(classes[kept_of(classes, n)[k] as int]@),
        forall|i: int|
            0 <= i < n && !pbr_class(classes[i]@) ==> #[trigger] kept_of(classes, n).contains(
                i as usize,
            ),
    decreases n,
{
    if n > 0 {
        lemma_kept(classes, (n - 1) as nat);
        let prev = kept_of(classes, (n - 1) as nat);
        assert forall|i: int|
            0 <= i < n && !pbr_class(classes[i]@) implies #[trigger] kept_of(
            classes,
            n,
        ).contains(i as usize) by {
            if i < n - 1 {
                assert(prev.contains(i as usize));
                let t = choose|t: int| 0 <= t < prev.len() && prev[t] == i as usize;
                assert(kept_of(classes, n)[t] == i as usize);
            } else {
                assert(kept_of(classes, n)[prev.len() as int] == i as usize);
            }
        }
    }
}

/// After the strip pass no kept entity has a class that contains
/// `func_ggx` in any case, and every other entity is kept.
pub proof fn law_strip_leaves_no_pbr_class(classes: Seq<String>)
    requires
        classes.len() <= usize::MAX,
    ensures
        forall|k: int|
            0 <= k < kept_of(classes, classes.len()).len() ==> !has_sub(
                lower_of(classes[(#[trigger] kept_of(classes, classes.len())[k]) as int]@),
                "func_ggx"@,
            ),
        forall|i: int|
            0 <= i < classes.len() && !pbr_class(classes[i]@) ==> #[trigger] kept_of(
                classes,
                classes.len(),
            ).contains(i as usize),
{
    lemma_kept(classes, classes.len());
}

/// The class of a tagged surface before the pipeline runs.
pub const SURFACE_CLASS: &'static str = "func_ggx_surface";

/// The class a processed surface takes.
pub const PROCESSED_SURFACE_CLASS: &'static str = "func_illusionary";

/// The class of the control entities the wiring adds.
pub const CONTROL_CLASS: &'static str = "material_modify_control";

pub open spec fn surface_class(c: Seq<char>) -> bool {
    c == SURFACE_CLASS@
}

/// The positions among the first `n` classes that are tagged surfaces.
pub open spec fn surfaces_of(classes: Seq<Seq<char>>, n: nat) -> Seq<usize>
    decreases n,
{
    if n == 0 {
        Seq::empty()
    } else if surface_class(classes[n - 1]) {
        surfaces_of(classes, (n - 1) as nat).push((n - 1) as usize)
    } else {
        surfaces_of(classes, (n - 1) as nat)
    }
}

/// The classes after a run: the classes `retag_surfaces` gives, then `added`
/// control entities.
pub open spec fn after_run(classes: Seq<Seq<char>>, added: nat) -> Seq<Seq<char>> {
    retagged(classes) + Seq::new(added, |i: int| CONTROL_CLASS@)
}

/// The classes once each tagged surface has become a processed surface.
pub open spec fn retagged(classes: Seq<Seq<char>>) -> Seq<Seq<char>> {
    Seq::new(
        classes.len(),
        |i: int|
            if surface_class(classes[i]) {
                PROCESSED_SURFACE_CLASS@
            } else {
                classes[i]
            },
    )
}

/// The class each entity takes when the surfaces are processed: a tagged
/// surface becomes a processed surface, every other class stays.
pub fn retag_surfaces(classnames: &Vec<String>) -> (r: Vec<String>)
    ensures
        r@.map_values(|c: String| c@) == retagged(classnames@.map_values(|c: String| c@)),
{
    let ghost classes = classnames@.map_values(|c: String| c@);
    let mut r: Vec<String> = Vec::new();
    let mut i: usize = 0;
    while i < classnames.len()
        invariant
            i <= classnames@.len(),
            classes == classnames@.map_values(|c: String| c@),
            r@.len() == i,
            forall|t: int| 0 <= t < i ==> (#[trigger] r@[t])@ == retagged(classes)[t],
        decreases classnames@.len() - i,
    {
        if crate::text::same_text(classnames[i].as_str(), SURFACE_CLASS) {
            r.push(String::from_str(PROCESSED_SURFACE_CLASS));
        } else {
            r.push(classnames[i].clone());
        }
        i = i + 1;
    }
    assert(r@.map_values(|c: String| c@) =~= retagged(classes));
    r
}

/// The positions of the tagged surfaces, in order.
pub fn surface_indices(classnames: &Vec<String>) -> (r: Vec<usize>)
    ensures
        r@ == surfaces_of(classnames@.map_values(|c: String| c@), classnames@.len()),
{
    let ghost classes = classnames@.map_values(|c: String| c@);
    let mut r: Vec<usize> = Vec::new();
    let mut i: usize = 0;
    while i < classnames.len()
        invariant
            i <= classnames@.len(),
            classes == classnames@.map_values(|c: String| c@),
            r@ == surfaces_of(classes, i as nat),
        decreases classnames@.len() - i,
    {
        if crate::text::same_text(classnames[i].as_str(), SURFACE_CLASS) {
            r.push(i);
        }
        i = i + 1;
    }
    r
}

proof fn lemma_no_surfaces(classes: Seq<Seq<char>>, n: nat)
    requires
        n <= classes.len(),
        forall|i: int| 0 <= i < n ==> !surface_class(#[trigger] classes[i]),
    ensures
        surfaces_of(classes, n).len() == 0,
    decreases n,
{
    if n > 0 {
        lemma_no_surfaces(classes, (n - 1) as nat);
    }
}

/// A second run finds nothing to process: after a run no entity is a
/// tagged surface, so no further control entities are made and the ones
/// already made are not duplicated.
pub proof fn law_second_run_finds_no_surface(classes: Seq<Seq<char>>, added: nat)
    ensures
        surfaces_of(after_run(classes, added), after_run(classes, added).len()).len() == 0,
{
    reveal_strlit("func_ggx_surface");
    reveal_strlit("func_illusionary");
    reveal_strlit("material_modify_control");
    let a = after_run(classes, added);
    assert(PROCESSED_SURFACE_CLASS@ != SURFACE_CLASS@) by {
        assert(PROCESSED_SURFACE_CLASS@[5] != SURFACE_CLASS@[5]);
    }
    assert(CONTROL_CLASS@ != SURFACE_CLASS@) by {
        assert(CONTROL_CLASS@[0] != SURFACE_CLASS@[0]);
    }
    assert forall|i: int| 0 <= i < a.len() implies !surface_class(#[trigger] a[i]) by {
        if i >= classes.len() {
            assert(a[i] == CONTROL_CLASS@);
        }
    }
    lemma_no_surfaces(a, a.len());
}

/// The surface's own name, or `surface_<counter>` when it has none.
pub open spec fn surface_name_of(targetname: Option<Seq<char>>, counter: nat) -> Seq<char> {
    match targetname {
        Some(t) => t,
        None => "surface_"@ + decimal(counter),
    }
}

pub fn surface_name(targetname: Option<&str>, counter: u64) -> (r: String)
    ensures
        r@ == surface_name_of(
            match targetname {
                Some(t) => Some(t@),
                None => None,
            },
            counter as nat,
        ),
{
    match targetname {
        Some(t) => String::from_str(t),
        None => {
            let mut r = String::from_str("surface_");
            push_decimal(&mut r, counter);
            r
        },
    }
}

/// `maps/<map>/<name>` with forward slashes only.
pub open spec fn map_asset_path(map: Seq<char>, name: Seq<char>) -> Seq<char> {
    replaced("maps/"@ + map + "/"@ + name, '\\', '/')
}

/// The path of a map's generated asset, relative to the game's material root.
pub fn material_path(map: &str, name: &str) -> (r: String)
    ensures
        r@ == map_asset_path(map@, name@),
{
    let mut p = String::from_str("maps/");
    p.append(map);
    p.append("/");
    p.append(name);
    replace_char(p.as_str(), '\\', '/')
}

/// The look-up texture's name for a surface: `<surface>_lut`.
pub fn lut_name(surface: &str) -> (r: String)
    ensures
        r@ == surface@ + "_lut"@,
{
    let mut r = String::from_str(surface);
    r.append("_lut");
    r
}

} // verus!
