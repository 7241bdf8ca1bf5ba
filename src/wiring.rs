//! Dynamic wiring: for each of a surface's first accepted lights that other
//! entities switch, a control entity that writes one lane of the material's
//! `$c4` vector, and on each switching entity a connection that drives it.
use vstd::prelude::*;
use crate::connections::{ConnectionView, LightConnection, LightInputType, views};
use crate::selection::{Candidate, LightTag};
use crate::text::{
    decimal, lower_of, lowercase, push_char, push_decimal, same_text, trim_of, trimmed,
};

verus! {

/// Lanes of the `$c4` vector, hence how many accepted lights can be switched.
pub const WIRED_SLOTS: usize = 4;

/// A `material_modify_control` entity to add to the map.
#[derive(Clone, Debug)]
pub struct ControlEntity {
    pub targetname: String,
    pub parentname: String,
    pub material_name: String,
    pub material_var: String,
}

/// A connection to add to the entity at `source_entity_idx`.
#[derive(Clone, Debug)]
pub struct AddedConnection {
    pub source_entity_idx: usize,
    pub output: String,
    pub value: String,
}

/// Everything the wiring of one surface adds, and the initial state of the
/// four `$c4` lanes (`true` for lit).
#[derive(Clone, Debug)]
pub struct Wiring {
    pub controls: Vec<ControlEntity>,
    pub connections: Vec<AddedConnection>,
    pub c4_lit: Vec<bool>,
}

pub struct ControlView {
    pub targetname: Seq<char>,
    pub parentname: Seq<char>,
    pub material_name: Seq<char>,
    pub material_var: Seq<char>,
}

pub struct AddedView {
    pub source: usize,
    pub output: Seq<char>,
    pub value: Seq<char>,
}

impl View for ControlEntity {
    type V = ControlView;

    open spec fn view(&self) -> ControlView {
        ControlView {
            targetname: self.targetname@,
            parentname: self.parentname@,
            material_name: self.material_name@,
            material_var: self.material_var@,
        }
    }
}

impl View for AddedConnection {
    type V = AddedView;

    open spec fn view(&self) -> AddedView {
        AddedView { source: self.source_entity_idx, output: self.output@, value: self.value@ }
    }
}

/// `<surface>_ctrl_<slot>`.
pub open spec fn ctrl_name(surface: Seq<char>, slot: nat) -> Seq<char> {
    surface + "_ctrl_"@ + decimal(slot)
}

/// `$c4_x`, `$c4_y`, `$c4_z`, `$c4_w` for slots 0 to 3.
pub open spec fn material_var(slot: nat) -> Seq<char> {
    "$c4_"@.push(seq!['x', 'y', 'z', 'w'][slot as int])
}

pub open spec fn toggle_value(t: LightInputType) -> Seq<char> {
    match t {
        LightInputType::TurnOn => "1"@,
        LightInputType::TurnOff => "0"@,
    }
}

/// `<ctrl>,SetMaterialVar,<1 or 0>,<delay>,-1`.
pub open spec fn added_value(ctrl: Seq<char>, c: ConnectionView) -> Seq<char> {
    ctrl + ",SetMaterialVar,"@ + toggle_value(c.input) + ","@ + c.delay + ",-1"@
}

/// The registry key of a light: its id, trimmed and lower-cased.
pub open spec fn light_key(tag: LightTag) -> Seq<char> {
    lower_of(trim_of(tag.id@))
}

/// The connections to add for the control `ctrl`: one for each of the first
/// `m` registry entries that targets `key`, in registry order.
pub open spec fn added_for(ctrl: Seq<char>, reg: Seq<ConnectionView>, key: Seq<char>, m: nat) -> Seq<
    AddedView,
>
    decreases m,
{
    if m == 0 {
        Seq::empty()
    } else {
        let prev = added_for(ctrl, reg, key, (m - 1) as nat);
        let c = reg[m - 1];
        if c.target_key == key {
            prev.push(AddedView { source: c.source, output: c.output, value: added_value(ctrl, c) })
        } else {
            prev
        }
    }
}

/// The connections that slot `i` adds: none unless its light is named.
pub open spec fn slot_added(
    surface: Seq<char>,
    tags: Seq<LightTag>,
    accepted: Seq<Candidate>,
    reg: Seq<ConnectionView>,
    i: nat,
) -> Seq<AddedView> {
    let tag = tags[accepted[i as int].light as int];
    if tag.named {
        added_for(ctrl_name(surface, i), reg, light_key(tag), reg.len())
    } else {
        Seq::empty()
    }
}

/// How many accepted lights the wiring looks at.
pub open spec fn wired_slots(accepted: Seq<Candidate>) -> nat {
    if accepted.len() < WIRED_SLOTS {
        accepted.len()
    } else {
        WIRED_SLOTS as nat
    }
}

/// The controls of the first `n` slots: one for each slot that adds a
/// connection.
pub open spec fn controls_of(
    surface: Seq<char>,
    material: Seq<char>,
    tags: Seq<LightTag>,
    accepted: Seq<Candidate>,
    reg: Seq<ConnectionView>,
    n: nat,
) -> Seq<ControlView>
    decreases n,
{
    if n == 0 {
        Seq::empty()
    } else {
        let prev = controls_of(surface, material, tags, accepted, reg, (n - 1) as nat);
        if slot_added(surface, tags, accepted, reg, (n - 1) as nat).len() > 0 {
            prev.push(
                ControlView {
                    targetname: ctrl_name(surface, (n - 1) as nat),
                    parentname: surface,
                    material_name: material,
                    material_var: material_var((n - 1) as nat),
                },
            )
        } else {
            prev
        }
    }
}

/// The connections that the first `n` slots add, slot by slot.
pub open spec fn connections_of(
    surface: Seq<char>,
    tags: Seq<LightTag>,
    accepted: Seq<Candidate>,
    reg: Seq<ConnectionView>,
    n: nat,
) -> Seq<AddedView>
    decreases n,
{
    if n == 0 {
        Seq::empty()
    } else {
        connections_of(surface, tags, accepted, reg, (n - 1) as nat) + slot_added(
            surface,
            tags,
            accepted,
            reg,
            (n - 1) as nat,
        )
    }
}

/// Lane `i` starts lit unless the light in slot `i` starts dark.
pub open spec fn lane_lit(tags: Seq<LightTag>, accepted: Seq<Candidate>, i: int) -> bool {
    !(i < accepted.len() && tags[accepted[i].light as int].initially_dark)
}

pub open spec fn control_views(s: Seq<ControlEntity>) -> Seq<ControlView> {
    s.map_values(|c: ControlEntity| c@)
}

pub open spec fn added_views(s: Seq<AddedConnection>) -> Seq<AddedView> {
    s.map_values(|c: AddedConnection| c@)
}

/// The name of the control for a slot.
pub fn control_name(surface: &str, slot: usize) -> (r: String)
    ensures
        r@ == ctrl_name(surface@, slot as nat),
{
    let mut r = String::from_str(surface);
    r.append("_ctrl_");
    push_decimal(&mut r, slot as u64);
    r
}

fn material_var_exec(slot: usize) -> (r: String)
    requires
        slot < WIRED_SLOTS,
    ensures
        r@ == material_var(slot as nat),
{
    let lanes = ['x', 'y', 'z', 'w'];
    assert(lanes@ =~= seq!['x', 'y', 'z', 'w']);
    let mut r = String::from_str("$c4_");
    push_char(&mut r, lanes[slot]);
    r
}

fn added_value_exec(ctrl: &str, c: &LightConnection) -> (r: String)
    ensures
        r@ == added_value(ctrl@, c@),
{
    let mut r = String::from_str(ctrl);
    r.append(",SetMaterialVar,");
    match c.input_type {
        LightInputType::TurnOn => r.append("1"),
        LightInputType::TurnOff => r.append("0"),
    }
    r.append(",");
    r.append(c.delay.as_str());
    r.append(",-1");
    r
}

/// Wire one surface: `surface` is its name, `material` the material its
/// controls drive, `accepted` its accepted lights (indices into `tags`), and
/// `registry` the light connections of the map.
pub fn wire_surface(
    surface: &str,
    material: &str,
    tags: &Vec<LightTag>,
    accepted: &Vec<Candidate>,
    registry: &Vec<LightConnection>,
) -> (w: Wiring)
    requires
        forall|k: int| 0 <= k < accepted@.len() ==> (#[trigger] accepted@[k]).light < tags@.len(),
    ensures
        control_views(w.controls@) == controls_of(
            surface@,
            material@,
            tags@,
            accepted@,
            views(registry@),
            wired_slots(accepted@),
        ),
        added_views(w.connections@) == connections_of(
            surface@,
            tags@,
            accepted@,
            views(registry@),
            wired_slots(accepted@),
        ),
        w.c4_lit@.len() == WIRED_SLOTS,
        forall|i: int| 0 <= i < WIRED_SLOTS ==> w.c4_lit@[i] == lane_lit(tags@, accepted@, i),
{
    let ghost reg = views(registry@);
    let n = if accepted.len() < WIRED_SLOTS {
        accepted.len()
    } else {
        WIRED_SLOTS
    };
    let mut controls: Vec<ControlEntity> = Vec::new();
    let mut connections: Vec<AddedConnection> = Vec::new();
    let mut i: usize = 0;
    while i < n
        invariant
            n == wired_slots(accepted@),
            n <= accepted@.len(),
            n <= WIRED_SLOTS,
            i <= n,
            forall|k: int| 0 <= k < accepted@.len() ==> (#[trigger] accepted@[k]).light < tags@.len(),
            reg == views(registry@),
            control_views(controls@) == controls_of(
                surface@,
                material@,
                tags@,
                accepted@,
                reg,
                i as nat,
            ),
            added_views(connections@) == connections_of(surface@, tags@, accepted@, reg, i as nat),
        decreases n - i,
    {
        let tag = &tags[accepted[i].light];
        let ghost conns_before = added_views(connections@);
        let ghost ctrls_before = control_views(controls@);
        if tag.named {
            let name = control_name(surface, i);
            let t = trimmed(tag.id.as_str());
            let key = lowercase(t.as_str());
            let mut found = false;
            let mut j: usize = 0;
            while j < registry.len()
                invariant
                    j <= registry@.len(),
                    reg == views(registry@),
                    added_views(connections@) == conns_before + added_for(
                        name@,
                        reg,
                        key@,
                        j as nat,
                    ),
                    found == (added_for(name@, reg, key@, j as nat).len() > 0),
                decreases registry@.len() - j,
            {
                let c = &registry[j];
                let ghost before = added_views(connections@);
                if same_text(c.target_key.as_str(), key.as_str()) {
                    let value = added_value_exec(name.as_str(), c);
                    connections.push(
                        AddedConnection {
                            source_entity_idx: c.source_entity_idx,
                            output: c.output_name.clone(),
                            value,
                        },
                    );
                    found = true;
                    assert(added_views(connections@) =~= before.push(
                        AddedView { source: c@.source, output: c@.output, value: value@ },
                    ));
                }
                j = j + 1;
            }
            if found {
                controls.push(
                    ControlEntity {
                        targetname: name,
                        parentname: String::from_str(surface),
                        material_name: String::from_str(material),
                        material_var: material_var_exec(i),
                    },
                );
                assert(control_views(controls@) =~= ctrls_before.push(controls@.last()@));
            }
        } else {
            assert(conns_before + Seq::<AddedView>::empty() =~= conns_before);
        }
        i = i + 1;
    }
    let mut c4_lit: Vec<bool> = Vec::new();
    let mut k: usize = 0;
    while k < WIRED_SLOTS
        invariant
            k <= WIRED_SLOTS,
            c4_lit@.len() == k,
            forall|k: int| 0 <= k < accepted@.len() ==> (#[trigger] accepted@[k]).light < tags@.len(),
            forall|t: int| 0 <= t < k ==> c4_lit@[t] == lane_lit(tags@, accepted@, t),
        decreases WIRED_SLOTS - k,
    {
        let lit = !(k < accepted.len() && tags[accepted[k].light].initially_dark);
        c4_lit.push(lit);
        k = k + 1;
    }
    Wiring { controls, connections, c4_lit }
}

} // verus!
