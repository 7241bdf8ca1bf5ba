//! The material manifest of a surface: a patch of its base material that
//! points at the surface's look-up texture and sets the initial `$c4` lanes.
use vstd::prelude::*;
use crate::text::{replace_char, replaced};

verus! {

#[derive(Clone, Copy, Debug, PartialEq, Eq, Structural)]
pub enum ManifestError {
    /// The surface names no base material to patch.
    MissingTemplate,
}

/// A lane's initial value with two decimals.
pub open spec fn lane_text(lit: bool) -> Seq<char> {
    if lit {
        "1.00"@
    } else {
        "0.00"@
    }
}

pub open spec fn manifest_of(base: Seq<char>, texture: Seq<char>, lit: Seq<bool>) -> Seq<char> {
    "patch\n{\n\tinclude \"materials/"@ + base + ".vmt\"\n\treplace\n\t{\n\t\t$texture1 \""@
        + replaced(texture, '\\', '/') + "\"\n\t\t$c4_x "@ + lane_text(lit[0]) + "\n\t\t$c4_y "@
        + lane_text(lit[1]) + "\n\t\t$c4_z "@ + lane_text(lit[2]) + "\n\t\t$c4_w "@ + lane_text(
        lit[3],
    ) + "\n\t}\n}\n"@
}

fn lane_str(lit: bool) -> (r: &'static str)
    ensures
        r@ == lane_text(lit),
{
    if lit {
        "1.00"
    } else {
        "0.00"
    }
}

/// The manifest text for a surface whose base material is `base`, whose
/// look-up texture is at `texture`, and whose four lanes start as `c4_lit`.
pub fn material_manifest(base: Option<&str>, texture: &str, c4_lit: &Vec<bool>) -> (r: Result<
    String,
    ManifestError,
>)
    requires
        c4_lit@.len() == 4,
    ensures
        match base {
            Some(b) => r == Ok::<String, ManifestError>(r->Ok_0) && r->Ok_0@ == manifest_of(
                b@,
                texture@,
                c4_lit@,
            ),
            None => r == Err::<String, ManifestError>(ManifestError::MissingTemplate),
        },
{
    let base = match base {
        Some(b) => b,
        None => return Err(ManifestError::MissingTemplate),
    };
    let clean = replace_char(texture, '\\', '/');
    let mut s = String::from_str("patch\n{\n\tinclude \"materials/");
    s.append(base);
    s.append(".vmt\"\n\treplace\n\t{\n\t\t$texture1 \"");
    s.append(clean.as_str());
    s.append("\"\n\t\t$c4_x ");
    s.append(lane_str(c4_lit[0]));
    s.append("\n\t\t$c4_y ");
    s.append(lane_str(c4_lit[1]));
    s.append("\n\t\t$c4_z ");
    s.append(lane_str(c4_lit[2]));
    s.append("\n\t\t$c4_w ");
    s.append(lane_str(c4_lit[3]));
    s.append("\n\t}\n}\n");
    Ok(s)
}

} // verus!
