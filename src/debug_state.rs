//! State of the in-game debug overlay.
use vstd::prelude::*;

verus! {

/// What the debug overlay draws.
#[derive(Clone, Copy, Debug, PartialEq, Eq, Structural)]
pub struct DebugControlsState {
    pub enabled: bool,
    pub draw_ggx_surfaces: bool,
    pub draw_light_surface_links: bool,
    pub draw_rejected_light_sources: bool,
    pub draw_blockers: bool,
    pub inspect_surface: bool,
}

impl Default for DebugControlsState {
    /// The overlay starts on, showing surfaces and their links only.
    fn default() -> (r: Self)
        ensures
            r == (DebugControlsState {
                enabled: true,
                draw_ggx_surfaces: true,
                draw_light_surface_links: true,
                draw_rejected_light_sources: false,
                draw_blockers: false,
                inspect_surface: false,
            }),
    {
        DebugControlsState {
            enabled: true,
            draw_ggx_surfaces: true,
            draw_light_surface_links: true,
            draw_rejected_light_sources: false,
            draw_blockers: false,
            inspect_surface: false,
        }
    }
}

/// The editable identity of a light in the overlay.
#[derive(Clone, Debug)]
pub struct LightSettings {
    id: u64,
    target_name: String,
}

impl View for LightSettings {
    /// The entity id and the target name.
    type V = (u64, Seq<char>);

    closed spec fn view(&self) -> (u64, Seq<char>) {
        (self.id, self.target_name@)
    }
}

impl LightSettings {
    /// Settings for the entity `id`; a missing target name reads as empty.
    pub fn new(id: u64, targetname: Option<&str>) -> (r: Self)
        ensures
            r@.0 == id,
            r@.1 == match targetname {
                Some(t) => t@,
                None => Seq::<char>::empty(),
            },
    {
        let target_name = match targetname {
            Some(t) => String::from_str(t),
            None => String::new(),
        };
        LightSettings { id, target_name }
    }

    pub fn id(&self) -> (r: u64)
        ensures
            r == self@.0,
    {
        self.id
    }

    pub fn target_name(&self) -> (r: &str)
        ensures
            r@ == self@.1,
    {
        self.target_name.as_str()
    }
}

} // verus!
