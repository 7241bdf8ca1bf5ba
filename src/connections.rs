//! Entity connections that switch lights on or off, gathered into a registry
//! keyed by the lower-cased name of the light they target.
use vstd::prelude::*;
use crate::text::{lower_of, lowercase, push_char, trim_of, trimmed, same_text};

verus! {

/// The input of a connection that the wiring can follow.
#[derive(Clone, Copy, Debug, PartialEq, Eq, Structural)]
pub enum LightInputType {
    TurnOn,
    TurnOff,
}

/// One connection as an entity holds it: the output name and the value
/// `target,input,parameter,delay,limit` (fields split by `,` or ESC).
#[derive(Clone, Debug)]
pub struct ConnectionRecord {
    /// Position of the entity that holds the connection.
    pub source: usize,
    pub output: String,
    pub value: String,
}

/// A connection that switches a light.
#[derive(Clone, Debug)]
pub struct LightConnection {
    pub source_entity_idx: usize,
    pub output_name: String,
    /// The target's name, trimmed and lower-cased.
    pub target_key: String,
    pub input_type: LightInputType,
    /// The delay field as written, trimmed; `0` when the value has none.
    pub delay: String,
}

pub struct ConnectionView {
    pub source: usize,
    pub output: Seq<char>,
    pub target_key: Seq<char>,
    pub input: LightInputType,
    pub delay: Seq<char>,
}

impl View for LightConnection {
    type V = ConnectionView;

    open spec fn view(&self) -> ConnectionView {
        ConnectionView {
            source: self.source_entity_idx,
            output: self.output_name@,
            target_key: self.target_key@,
            input: self.input_type,
            delay: self.delay@,
        }
    }
}

pub open spec fn is_field_sep(c: char) -> bool {
    c == ',' || c == '\x1b'
}

/// The fields of a connection value; there is always at least one.
pub open spec fn split_fields(s: Seq<char>) -> Seq<Seq<char>>
    decreases s.len(),
{
    if s.len() == 0 {
        seq![Seq::<char>::empty()]
    } else {
        let f = split_fields(s.drop_last());
        if is_field_sep(s.last()) {
            f.push(Seq::<char>::empty())
        } else {
            f.update(f.len() - 1, f.last().push(s.last()))
        }
    }
}

pub open spec fn input_of(word: Seq<char>) -> Option<LightInputType> {
    if lower_of(trim_of(word)) == "turnon"@ {
        Some(LightInputType::TurnOn)
    } else if lower_of(trim_of(word)) == "turnoff"@ {
        Some(LightInputType::TurnOff)
    } else {
        None
    }
}

/// The light connection that a value describes, if its input is `TurnOn` or
/// `TurnOff` (in any case).
pub open spec fn connection_of(source: usize, output: Seq<char>, value: Seq<char>) -> Option<
    ConnectionView,
> {
    let f = split_fields(value);
    if f.len() < 2 {
        None
    } else {
        match input_of(f[1]) {
            None => None,
            Some(t) => Some(
                ConnectionView {
                    source,
                    output,
                    target_key: lower_of(trim_of(f[0])),
                    input: t,
                    delay: if f.len() > 3 {
                        trim_of(f[3])
                    } else {
                        "0"@
                    },
                },
            ),
        }
    }
}

/// The light connections among the first `n` records, in order.
pub open spec fn registry_of(records: Seq<ConnectionRecord>, n: nat) -> Seq<ConnectionView>
    decreases n,
{
    if n == 0 {
        Seq::empty()
    } else {
        let prev = registry_of(records, (n - 1) as nat);
        let r = records[n - 1];
        match connection_of(r.source, r.output@, r.value@) {
            Some(c) => prev.push(c),
            None => prev,
        }
    }
}

pub open spec fn views(s: Seq<LightConnection>) -> Seq<ConnectionView> {
    s.map_values(|c: LightConnection| c@)
}

pub open spec fn texts(s: Seq<String>) -> Seq<Seq<char>> {
    s.map_values(|x: String| x@)
}

/// Split a connection value at each `,` and ESC.
pub fn split_value(value: &str) -> (f: Vec<String>)
    ensures
        texts(f@) == split_fields(value@),
{
    let n = value.unicode_len();
    let mut fields: Vec<String> = Vec::new();
    let mut cur = String::new();
    let mut i: usize = 0;
    assert(texts(fields@).push(cur@) =~= split_fields(value@.take(0)));
    while i < n
        invariant
            n == value@.len(),
            i <= n,
            texts(fields@).push(cur@) == split_fields(value@.take(i as int)),
        decreases n - i,
    {
        let c = value.get_char(i);
        assert(value@.take(i + 1).drop_last() =~= value@.take(i as int));
        assert(value@.take(i + 1).last() == c);
        let ghost before = texts(fields@);
        if c == ',' || c == '\x1b' {
            fields.push(cur);
            cur = String::new();
            assert(texts(fields@) =~= before.push(split_fields(value@.take(i as int)).last()));
            assert(texts(fields@).push(cur@) =~= split_fields(value@.take(i + 1)));
        } else {
            push_char(&mut cur, c);
            assert(texts(fields@).push(cur@) =~= split_fields(value@.take(i + 1)));
        }
        i = i + 1;
    }
    assert(value@.take(n as int) =~= value@);
    fields.push(cur);
    assert(texts(fields@) =~= split_fields(value@));
    fields
}

fn input_exec(word: &str) -> (r: Option<LightInputType>)
    ensures
        r == input_of(word@),
{
    let t = trimmed(word);
    let low = lowercase(t.as_str());
    if same_text(low.as_str(), "turnon") {
        Some(LightInputType::TurnOn)
    } else if same_text(low.as_str(), "turnoff") {
        Some(LightInputType::TurnOff)
    } else {
        None
    }
}

/// Read one connection; `None` unless it turns a light on or off.
pub fn parse_connection(source: usize, output: &str, value: &str) -> (r: Option<LightConnection>)
    ensures
        match r {
            Some(c) => connection_of(source, output@, value@) == Some(c@),
            None => connection_of(source, output@, value@) is None,
        },
{
    let f = split_value(value);
    assert(f@.len() == split_fields(value@).len());
    if f.len() < 2 {
        return None;
    }
    assert(f@[1]@ == split_fields(value@)[1]);
    assert(f@[0]@ == split_fields(value@)[0]);
    let input = input_exec(f[1].as_str());
    match input {
        None => None,
        Some(t) => {
            let target = trimmed(f[0].as_str());
            let target_key = lowercase(target.as_str());
            let delay = if f.len() > 3 {
                assert(f@[3]@ == split_fields(value@)[3]);
                trimmed(f[3].as_str())
            } else {
                String::from_str("0")
            };
            let c = LightConnection {
                source_entity_idx: source,
                output_name: String::from_str(output),
                target_key,
                input_type: t,
                delay,
            };
            Some(c)
        },
    }
}

/// Gather the light connections of all records, in order.
pub fn build_registry(records: &Vec<ConnectionRecord>) -> (r: Vec<LightConnection>)
    ensures
        views(r@) == registry_of(records@, records@.len()),
{
    let mut r: Vec<LightConnection> = Vec::new();
    let mut i: usize = 0;
    while i < records.len()
        invariant
            i <= records@.len(),
            views(r@) == registry_of(records@, i as nat),
        decreases records@.len() - i,
    {
        let rec = &records[i];
        let ghost before = views(r@);
        match parse_connection(rec.source, rec.output.as_str(), rec.value.as_str()) {
            Some(c) => {
                r.push(c);
                assert(views(r@) =~= before.push(c@));
            },
            None => {},
        }
        i = i + 1;
    }
    r
}

} // verus!
