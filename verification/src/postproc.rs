//! The post-processor's bookkeeping: which processing mode is in use, the
//! last reported state of each input, and how processed events fill the
//! shared histogram.

use vstd::prelude::*;
use crate::event::{Event, EventType};
use crate::input::InputState;
use crate::shm::{ShmBox, ShmInterface, bin_offset, histo_text_upto};
use crate::text::{chars_eq_str, push_str, str_to_chars};
use crate::command::CommandReply;
use crate::json::{
    bool_value, entries_map, entry_views, json_bool, json_from_option, json_object, json_string,
    json_string_array, object_value, option_value, string_array, string_value,
};
use crate::shm::stored_run_id;
use vstd::string::StringSliceAdditionalSpecFns;

verus! {

/// The histogram header and bins after counting the neutron events `evs`:
/// each neutron whose coordinates lie inside the histogram adds one to its
/// bin and to the neutron total; other events are not counted.
pub open spec fn histo_after(h: ShmInterface, b: Seq<u32>, evs: Seq<Event>) -> (ShmInterface, Seq<u32>)
    decreases evs.len(),
{
    if evs.len() == 0 {
        (h, b)
    } else {
        let (h1, b1) = histo_after(h, b, evs.drop_last());
        let ev = evs.last();
        let c = ev.histo;
        if ev.evtype == EventType::Neutron && c.x < h1.nx && c.y < h1.ny && c.t < h1.nt {
            let off = bin_offset(h1.nx as int, h1.ny as int, c.x as int, c.y as int, c.t as int);
            (
                ShmInterface { total_neutrons: (h1.total_neutrons + 1) as u64, ..h1 },
                b1.update(off, (b1[off] + 1) as u32),
            )
        } else {
            (h1, b1)
        }
    }
}

/// The bin a neutron event is counted in, if it lies inside the
/// histogram with header `h`.
pub open spec fn counted_at(h: ShmInterface, ev: Event) -> Option<int> {
    let c = ev.histo;
    if ev.evtype == EventType::Neutron && c.x < h.nx && c.y < h.ny && c.t < h.nt {
        Some(bin_offset(h.nx as int, h.ny as int, c.x as int, c.y as int, c.t as int))
    } else {
        None
    }
}

/// Whether counting `evs` fits: the neutron total and each bin an event
/// lands in keep room for as many counts as there are events.
pub open spec fn room_for(h: ShmInterface, b: Seq<u32>, evs: Seq<Event>) -> bool {
    &&& h.total_neutrons + evs.len() < u64::MAX
    &&& forall|j: int| 0 <= j < evs.len() ==> (counted_at(h, #[trigger] evs[j]) matches Some(off) ==> b[off] + evs.len() < u32::MAX)
}

/// Counts the neutron events of a processed batch into the histogram.
pub fn count_neutrons(shm: &mut ShmBox, evs: &Vec<Event>)
    requires
        old(shm).consistent(),
        room_for(old(shm).header, old(shm).spec_bins(), evs@),
    ensures
        final(shm).consistent(),
        (final(shm).header, final(shm).spec_bins()) == histo_after(old(shm).header, old(shm).spec_bins(), evs@),
{
    let mut k: usize = 0;
    while k < evs.len()
        invariant
            k <= evs@.len(),
            shm.consistent(),
            shm.header.nx == old(shm).header.nx,
            shm.header.ny == old(shm).header.ny,
            shm.header.nt == old(shm).header.nt,
            shm.header.total_neutrons + (evs@.len() - k) < u64::MAX,
            forall|j: int| k <= j < evs@.len() ==> (counted_at(old(shm).header, #[trigger] evs@[j]) matches Some(off)
                ==> shm.spec_bins()[off] + (evs@.len() - k) < u32::MAX),
            (shm.header, shm.spec_bins()) == histo_after(old(shm).header, old(shm).spec_bins(), evs@.subrange(0, k as int)),
        decreases evs@.len() - k,
    {
        let ev = evs[k];
        proof {
            assert(evs@.subrange(0, k + 1).drop_last() =~= evs@.subrange(0, k as int));
            assert(evs@.subrange(0, k + 1).last() == ev);
        }
        let ghost before = shm.spec_bins();
        let ghost hb = shm.header;
        if let EventType::Neutron = ev.evtype {
            shm.add_histo(ev.histo);
            proof {
                let c = ev.histo;
                if c.x < hb.nx && c.y < hb.ny && c.t < hb.nt {
                    let off = bin_offset(hb.nx as int, hb.ny as int, c.x as int, c.y as int, c.t as int);
                    let (nx, ny, nt) = (hb.nx as int, hb.ny as int, hb.nt as int);
                    assert(counted_at(old(shm).header, evs@[k as int]) == Some(off));
                    assert(0 <= off < nx * ny * nt) by (nonlinear_arith)
                        requires
                            off == c.t * nx * ny + c.y * nx + c.x,
                            0 <= c.x < nx,
                            0 <= c.y < ny,
                            0 <= c.t < nt,
                    ;
                    let nb = before.update(off, (before[off] + 1) as u32);
                    assert(shm.spec_bins() == nb);
                    assert forall|j: int| k + 1 <= j < evs@.len() implies (counted_at(old(shm).header, #[trigger] evs@[j]) matches Some(o2)
                        ==> nb[o2] + (evs@.len() - (k + 1)) < u32::MAX) by {
                        match counted_at(old(shm).header, evs@[j]) {
                            Some(o2) => {
                                let d = evs@[j].histo;
                                crate::shm::lemma_offset_in_range(nx, ny, nt, d.x as int, d.y as int, d.t as int);
                                assert(before[o2] + (evs@.len() - k) < u32::MAX);
                                assert(before[off] + (evs@.len() - k) < u32::MAX);
                                if o2 != off {
                                    assert(nb[o2] == before[o2]);
                                }
                            },
                            None => {},
                        }
                    }
                }
            }
        }
        k = k + 1;
    }
    assert(evs@.subrange(0, evs@.len() as int) =~= evs@);
}

/// The processing modes by name, the one in use, and the inputs' states.
pub struct PostState {
    pub mode_names: Vec<String>,
    /// Index of the mode in use.
    pub current: usize,
    /// Name under which the mode in use is reported.
    pub mode_name: String,
    /// The last state each input reported, each input once.
    pub input_states: Vec<(String, InputState)>,
    /// The name of this instance, as configured, reported with the state.
    pub instance: Option<String>,
}

fn find_name(names: &Vec<String>, name: &str) -> (r: Option<usize>)
    ensures
        match r {
            Some(i) => i < names@.len() && names@[i as int]@ == name@ && forall|j: int| 0 <= j < i ==> names@[j]@ != name@,
            None => forall|j: int| 0 <= j < names@.len() ==> names@[j]@ != name@,
        },
{
    let mut i: usize = 0;
    while i < names.len()
        invariant
            i <= names@.len(),
            forall|j: int| 0 <= j < i ==> names@[j]@ != name@,
        decreases names@.len() - i,
    {
        if chars_eq_str(&str_to_chars(names[i].as_str()), name) {
            return Some(i);
        }
        i = i + 1;
    }
    None
}

/// The mode could not be switched: no mode has the name.
#[derive(Debug, Clone, PartialEq, Eq)]
pub struct UnknownMode(pub String);

impl PostState {
    /// Starts with the default mode in use, reported under its own name;
    /// `None` if no mode has the default's name.
    pub fn new(mode_names: Vec<String>, default: &str) -> (r: Option<PostState>)
        ensures
            match r {
                Some(s) => {
                    &&& s.mode_names@ == mode_names@
                    &&& s.current < mode_names@.len()
                    &&& mode_names@[s.current as int]@ == default@
                    &&& forall|j: int| 0 <= j < s.current ==> mode_names@[j]@ != default@
                    &&& s.mode_name@ == default@
                    &&& s.input_states@.len() == 0
                    &&& s.instance is None
                },
                None => forall|j: int| 0 <= j < mode_names@.len() ==> mode_names@[j]@ != default@,
            },
    {
        match find_name(&mode_names, default) {
            Some(i) => Some(
                PostState {
                    mode_names,
                    current: i,
                    mode_name: default.to_owned(),
                    input_states: Vec::new(),
                    instance: None,
                },
            ),
            None => None,
        }
    }

    /// Switches to the mode `name`, if there is one; otherwise nothing
    /// changes.
    pub fn set_mode(&mut self, name: &str) -> (r: Result<(), UnknownMode>)
        ensures
            final(self).mode_names@ == old(self).mode_names@,
            final(self).input_states@ == old(self).input_states@,
            final(self).instance == old(self).instance,
            match r {
                Ok(()) => {
                    &&& final(self).current < final(self).mode_names@.len()
                    &&& final(self).mode_names@[final(self).current as int]@ == name@
                    &&& forall|j: int| 0 <= j < final(self).current ==> final(self).mode_names@[j]@ != name@
                    &&& final(self).mode_name@ == name@
                },
                Err(UnknownMode(n)) => {
                    &&& n@ == name@
                    &&& forall|j: int| 0 <= j < old(self).mode_names@.len() ==> old(self).mode_names@[j]@ != name@
                    &&& final(self).current == old(self).current
                    &&& final(self).mode_name == old(self).mode_name
                },
            },
    {
        match find_name(&self.mode_names, name) {
            Some(i) => {
                self.current = i;
                self.mode_name = name.to_owned();
                Ok(())
            },
            None => Err(UnknownMode(name.to_owned())),
        }
    }

    /// Records the state an input reported, replacing what it reported
    /// before.
    pub fn set_input_state(&mut self, module: String, state: InputState)
        ensures
            final(self).mode_names@ == old(self).mode_names@,
            final(self).current == old(self).current,
            final(self).mode_name == old(self).mode_name,
            final(self).instance == old(self).instance,
            ({
                let old_s = old(self).input_states@;
                let new_s = final(self).input_states@;
                if exists|i: int| 0 <= i < old_s.len() && old_s[i].0@ == module@ {
                    exists|i: int| 0 <= i < old_s.len() && old_s[i].0@ == module@ && new_s == old_s.update(i, (old_s[i].0, state))
                } else {
                    new_s == old_s.push((module, state))
                }
            }),
    {
        let mut i: usize = 0;
        while i < self.input_states.len()
            invariant
                i <= self.input_states@.len(),
                self.input_states@ == old(self).input_states@,
                self.mode_names@ == old(self).mode_names@,
                self.current == old(self).current,
                self.mode_name == old(self).mode_name,
                self.instance == old(self).instance,
                forall|j: int| 0 <= j < i ==> self.input_states@[j].0@ != module@,
            decreases self.input_states@.len() - i,
        {
            if chars_eq_str(&str_to_chars(self.input_states[i].0.as_str()), module.as_str()) {
                let name = self.input_states[i].0.clone();
                self.input_states.set(i, (name, state));
                return;
            }
            i = i + 1;
        }
        self.input_states.push((module, state));
    }
}


impl PostState {
    /// Sets the name of this instance.
    pub fn set_instance(&mut self, name: Option<String>)
        ensures
            *final(self) == (PostState { instance: name, ..*old(self) }),
    {
        self.instance = name;
    }
}

/// A parameter as a recipe reports it.
pub struct ParamInfo {
    pub name: String,
    pub datatype: String,
    pub help: String,
    pub readonly: bool,
    /// Not written back to the configuration file.
    pub runtime_only: bool,
    pub value: serde_json::Value,
}

/// A recipe's report of its parameters: its type and its parameters.
pub struct RecipeReport {
    pub kind_name: String,
    pub params: Vec<ParamInfo>,
}

/// What reaches the post-processor: an item of the pipeline or a request.
pub enum PostEvent {
    /// A batch of events, processed by the recipe of the mode in use.
    Events(Vec<Event>),
    StartOfRun(String),
    EndOfRun,
    Clear,
    /// An input's new state.
    InputState(String, InputState),
    GetModes,
    SetMode(String),
    GetState,
    /// Save the histogram, with at most this many time slices.
    SaveHisto(usize),
    /// The recipes' parameter reports, one per mode in the modes' order,
    /// and whether with their descriptions.
    GetParams(bool, Vec<RecipeReport>),
    /// The recipes that were given parameters, in the modes' order, and
    /// how taking them went.
    SetParams(Vec<(String, Result<(), String>)>),
}

/// What goes on to the outputs.
pub enum Forward {
    Events(Vec<Event>),
    StartOfRun(String),
    EndOfRun,
    Clear,
    /// The parameter request itself, for the outputs to answer too.
    Params,
}

/// What the post-processor does after an event.
pub struct PostAction {
    /// The replies to the request, in order.
    pub replies: Vec<CommandReply>,
    /// What is passed on to the outputs.
    pub forward: Option<Forward>,
    /// Whether every recipe starts a new run.
    pub reset_recipes: bool,
    /// Whether a batch of events was counted into the histogram.
    pub counted: bool,
    /// The histogram text to save.
    pub histo_text: Option<String>,
}

/// How an input's state is reported.
pub open spec fn state_value(st: InputState) -> serde_json::Value {
    match st {
        InputState::Idle => json_string("idle"@),
        InputState::Running => json_string("running"@),
        InputState::Ended => json_string("ended"@),
        InputState::Error(m) => json_object(entries_map(seq![("error"@, json_string(m@))])),
    }
}

/// The states of the inputs, by name.
pub open spec fn inputs_value(states: Seq<(String, InputState)>) -> serde_json::Value {
    json_object(entries_map(states.map_values(|e: (String, InputState)| (e.0@, state_value(e.1)))))
}

pub open spec fn opt_view(s: Option<String>) -> Option<Seq<char>> {
    match s {
        Some(t) => Some(t@),
        None => None,
    }
}

/// The reply to `get-state`: the inputs' states, the mode in use and the
/// instance's name.
pub open spec fn state_reply_value(st: PostState) -> serde_json::Value {
    json_object(
        entries_map(
            seq![
                ("inputs"@, inputs_value(st.input_states@)),
                ("mode"@, json_string(st.mode_name@)),
                ("name"@, json_from_option(opt_view(st.instance))),
            ],
        ),
    )
}

/// How a parameter is reported: its value, with its description where
/// `full`.
pub open spec fn info_value(p: ParamInfo, full: bool) -> serde_json::Value {
    if full {
        json_object(
            entries_map(
                seq![
                    ("datatype"@, json_string(p.datatype@)),
                    ("help"@, json_string(p.help@)),
                    ("readonly"@, json_bool(p.readonly)),
                    ("runtime_only"@, json_bool(p.runtime_only)),
                    ("value"@, p.value),
                ],
            ),
        )
    } else {
        json_object(entries_map(seq![("value"@, p.value)]))
    }
}

/// The `_info` entry of a recipe: its kind and type.
pub open spec fn kind_info_value(kind_name: Seq<char>) -> serde_json::Value {
    json_object(entries_map(seq![("kind"@, json_string("recipe"@)), ("type"@, json_string(kind_name))]))
}

/// The entries a recipe named `name` reports: `<name>.<param>` for each
/// parameter, and `<name>._info` where `full`.
pub open spec fn report_entries(name: Seq<char>, r: RecipeReport, full: bool) -> Seq<(Seq<char>, serde_json::Value)> {
    r.params@.map_values(|p: ParamInfo| (name + "."@ + p.name@, info_value(p, full))) + if full {
        seq![(name + "._info"@, kind_info_value(r.kind_name@))]
    } else {
        Seq::empty()
    }
}

/// The replies to `get-params`: one object per recipe.
pub open spec fn params_replies(names: Seq<String>, reports: Seq<RecipeReport>, full: bool) -> Seq<CommandReply> {
    Seq::new(
        reports.len(),
        |i: int| CommandReply::Data { value: json_object(entries_map(report_entries(names[i]@, reports[i], full))) },
    )
}

/// The message when a recipe refuses its parameters.
pub open spec fn set_failed_text(e: Seq<char>) -> Seq<char> {
    "Failed to set parameters: "@ + e
}

/// An error reply with module `module` and message `text`.
pub open spec fn error_with(r: CommandReply, module: Option<Seq<char>>, text: Seq<char>) -> bool {
    r matches CommandReply::Error { module: m, message } && opt_view(m) == module && message@ == text
}

fn state_json(st: &InputState) -> (v: serde_json::Value)
    ensures
        v == state_value(*st),
{
    match st {
        InputState::Idle => string_value("idle".to_owned()),
        InputState::Running => string_value("running".to_owned()),
        InputState::Ended => string_value("ended".to_owned()),
        InputState::Error(m) => {
            let mut e: Vec<(String, serde_json::Value)> = Vec::new();
            e.push(("error".to_owned(), string_value(m.clone())));
            proof {
                assert(entry_views(e@) =~= seq![("error"@, json_string(m@))]);
            }
            object_value(e)
        },
    }
}

fn state_reply(st: &PostState) -> (v: serde_json::Value)
    ensures
        v == state_reply_value(*st),
{
    let ghost want = st.input_states@.map_values(|e: (String, InputState)| (e.0@, state_value(e.1)));
    let mut inputs: Vec<(String, serde_json::Value)> = Vec::new();
    let mut i: usize = 0;
    while i < st.input_states.len()
        invariant
            i <= st.input_states@.len(),
            want == st.input_states@.map_values(|e: (String, InputState)| (e.0@, state_value(e.1))),
            inputs@.len() == i,
            entry_views(inputs@) == want.subrange(0, i as int),
        decreases st.input_states@.len() - i,
    {
        let name = st.input_states[i].0.clone();
        let v = state_json(&st.input_states[i].1);
        let ghost before = inputs@;
        inputs.push((name, v));
        proof {
            assert forall|k: int| 0 <= k < i + 1 implies #[trigger] entry_views(inputs@)[k] == want[k] by {
                if k < i {
                    assert(inputs@[k] == before[k]);
                    assert(entry_views(before)[k] == want.subrange(0, i as int)[k]);
                }
            }
            assert(entry_views(inputs@) =~= want.subrange(0, i + 1));
        }
        i = i + 1;
    }
    assert(want.subrange(0, st.input_states@.len() as int) =~= want);
    let mut top: Vec<(String, serde_json::Value)> = Vec::new();
    top.push(("inputs".to_owned(), object_value(inputs)));
    top.push(("mode".to_owned(), string_value(st.mode_name.clone())));
    let inst = match &st.instance {
        Some(n) => Some(n.clone()),
        None => None,
    };
    top.push(("name".to_owned(), option_value(inst)));
    proof {
        assert(entry_views(top@) =~= seq![
            ("inputs"@, inputs_value(st.input_states@)),
            ("mode"@, json_string(st.mode_name@)),
            ("name"@, json_from_option(opt_view(st.instance))),
        ]);
    }
    object_value(top)
}

fn dotted(name: &str, suffix: &str) -> (r: String)
    ensures
        r@ == name@ + "."@ + suffix@,
{
    let mut r = String::new();
    push_str(&mut r, name);
    push_str(&mut r, ".");
    push_str(&mut r, suffix);
    r
}

fn info_json(p: ParamInfo, full: bool) -> (v: serde_json::Value)
    ensures
        v == info_value(p, full),
{
    let mut e: Vec<(String, serde_json::Value)> = Vec::new();
    if full {
        e.push(("datatype".to_owned(), string_value(p.datatype)));
        e.push(("help".to_owned(), string_value(p.help)));
        e.push(("readonly".to_owned(), bool_value(p.readonly)));
        e.push(("runtime_only".to_owned(), bool_value(p.runtime_only)));
        e.push(("value".to_owned(), p.value));
        proof {
            assert(entry_views(e@) =~= seq![
                ("datatype"@, json_string(p.datatype@)),
                ("help"@, json_string(p.help@)),
                ("readonly"@, json_bool(p.readonly)),
                ("runtime_only"@, json_bool(p.runtime_only)),
                ("value"@, p.value),
            ]);
        }
    } else {
        e.push(("value".to_owned(), p.value));
        proof {
            assert(entry_views(e@) =~= seq![("value"@, p.value)]);
        }
    }
    object_value(e)
}

fn report_json(name: &str, r: RecipeReport, full: bool) -> (v: serde_json::Value)
    ensures
        v == json_object(entries_map(report_entries(name@, r, full))),
{
    let ghost all = r.params@;
    let ghost want = report_entries(name@, r, full);
    let kind_name = r.kind_name;
    let mut rest = r.params;
    let n = rest.len();
    let mut e: Vec<(String, serde_json::Value)> = Vec::new();
    let mut i: usize = 0;
    while i < n
        invariant
            i <= n,
            n == all.len(),
            rest@ == all.subrange(i as int, n as int),
            e@.len() == i,
            entry_views(e@) == all.subrange(0, i as int).map_values(|p: ParamInfo| (name@ + "."@ + p.name@, info_value(p, full))),
        decreases n - i,
    {
        let p = rest.remove(0);
        proof {
            assert(p == all[i as int]);
        }
        let key = dotted(name, p.name.as_str());
        let ghost pv = p;
        let v = info_json(p, full);
        let ghost before = e@;
        let ghost done = all.subrange(0, i as int).map_values(|p: ParamInfo| (name@ + "."@ + p.name@, info_value(p, full)));
        let ghost next = all.subrange(0, i + 1).map_values(|p: ParamInfo| (name@ + "."@ + p.name@, info_value(p, full)));
        e.push((key, v));
        proof {
            assert(rest@ =~= all.subrange(i + 1, n as int));
            assert forall|k: int| 0 <= k < i + 1 implies #[trigger] entry_views(e@)[k] == next[k] by {
                if k < i {
                    assert(e@[k] == before[k]);
                    assert(entry_views(before)[k] == done[k]);
                } else {
                    assert(all.subrange(0, i + 1)[k] == pv);
                }
            }
            assert(entry_views(e@) =~= next);
        }
        i = i + 1;
    }
    assert(all.subrange(0, n as int) =~= all);
    if full {
        let mut k: Vec<(String, serde_json::Value)> = Vec::new();
        k.push(("kind".to_owned(), string_value("recipe".to_owned())));
        k.push(("type".to_owned(), string_value(kind_name)));
        proof {
            assert(entry_views(k@) =~= seq![("kind"@, json_string("recipe"@)), ("type"@, json_string(kind_name@))]);
        }
        let key = dotted(name, "_info");
        e.push((key, object_value(k)));
        proof {
            reveal_strlit(".");
            reveal_strlit("_info");
            reveal_strlit("._info");
            assert(name@ + "."@ + "_info"@ =~= name@ + "._info"@);
        }
    }
    proof {
        assert(entry_views(e@) =~= want);
    }
    object_value(e)
}

/// The reply to saving the histogram, after writing it went as `r` says.
pub fn save_histo_reply(r: Result<(), String>) -> (c: CommandReply)
    ensures
        match r {
            Ok(_) => c == CommandReply::Done,
            Err(e) => error_with(c, None, "Failed to save histogram: "@ + e@),
        },
{
    match r {
        Ok(()) => CommandReply::Done,
        Err(e) => {
            let mut m = String::new();
            push_str(&mut m, "Failed to save histogram: ");
            push_str(&mut m, e.as_str());
            CommandReply::Error { module: None, message: m }
        },
    }
}

/// Whether a batch fits into the histogram (see `room_for`).
fn has_room(shm: &ShmBox, evs: &Vec<Event>) -> (r: bool)
    requires
        shm.consistent(),
    ensures
        r == room_for(shm.header, shm.spec_bins(), evs@),
{
    let n = evs.len();
    if shm.header.total_neutrons >= u64::MAX - (n as u64) || (n as u64) >= 0xFFFF_FFFF {
        proof {
            if n < 0xFFFF_FFFF {
                assert(!(shm.header.total_neutrons + evs@.len() < u64::MAX));
            }
        }
        if (n as u64) >= 0xFFFF_FFFF {
            return room_check_large(shm, evs);
        }
        return false;
    }
    let mut j: usize = 0;
    while j < n
        invariant
            j <= n,
            n == evs@.len(),
            n < 0xFFFF_FFFF,
            shm.consistent(),
            shm.header.total_neutrons + evs@.len() < u64::MAX,
            forall|k: int| 0 <= k < j ==> (counted_at(shm.header, #[trigger] evs@[k]) matches Some(off) ==> shm.spec_bins()[off]
                + evs@.len() < u32::MAX),
        decreases n - j,
    {
        let ev = evs[j];
        let c = ev.histo;
        if let EventType::Neutron = ev.evtype {
            if c.x < shm.header.nx && c.y < shm.header.ny && c.t < shm.header.nt {
                let nx = shm.header.nx as usize;
                let ny = shm.header.ny as usize;
                let nt = shm.header.nt as usize;
                proof {
                    crate::shm::lemma_offset_in_range(nx as int, ny as int, nt as int, c.x as int, c.y as int, c.t as int);
                }
                let off = (c.t as usize * ny + c.y as usize) * nx + c.x as usize;
                if shm.bins[off] as u64 + n as u64 >= 0xFFFF_FFFF {
                    assert(counted_at(shm.header, evs@[j as int]) == Some(off as int));
                    return false;
                }
            }
        }
        j = j + 1;
    }
    true
}

/// With at least `u32::MAX` events no bin an event lands in has room;
/// there is room only where no event lands in any bin.
fn room_check_large(shm: &ShmBox, evs: &Vec<Event>) -> (r: bool)
    requires
        shm.consistent(),
        evs@.len() >= 0xFFFF_FFFF,
    ensures
        r == room_for(shm.header, shm.spec_bins(), evs@),
{
    let n = evs.len();
    if shm.header.total_neutrons >= u64::MAX - (n as u64) {
        return false;
    }
    let mut j: usize = 0;
    while j < n
        invariant
            j <= n,
            n == evs@.len(),
            n >= 0xFFFF_FFFF,
            forall|k: int| 0 <= k < j ==> counted_at(shm.header, #[trigger] evs@[k]) is None,
        decreases n - j,
    {
        let ev = evs[j];
        let c = ev.histo;
        if let EventType::Neutron = ev.evtype {
            if c.x < shm.header.nx && c.y < shm.header.ny && c.t < shm.header.nt {
                assert(counted_at(shm.header, evs@[j as int]) is Some);
                return false;
            }
        }
        j = j + 1;
    }
    true
}

/// One step of the post-processor: what an item or request does to the
/// state and the histogram, what it is answered with, and what goes on to
/// the outputs.
pub fn post_step(state: &mut PostState, shm: &mut ShmBox, ev: PostEvent) -> (a: PostAction)
    requires
        old(shm).consistent(),
        ev matches PostEvent::GetParams(_, reports) ==> reports@.len() <= old(state).mode_names@.len(),
    ensures
        final(shm).consistent(),
        match ev {
            PostEvent::Events(evs) => {
                &&& *final(state) == *old(state)
                &&& a.replies@.len() == 0
                &&& a.forward == Some(Forward::Events(evs))
                &&& !a.reset_recipes && a.histo_text is None
                &&& a.counted == room_for(old(shm).header, old(shm).spec_bins(), evs@)
                &&& (final(shm).header, final(shm).spec_bins()) == if a.counted {
                    histo_after(old(shm).header, old(shm).spec_bins(), evs@)
                } else {
                    (old(shm).header, old(shm).spec_bins())
                }
            },
            PostEvent::StartOfRun(run_id) => {
                &&& *final(state) == *old(state)
                &&& a.replies@.len() == 0
                &&& a.forward == Some(Forward::StartOfRun(run_id))
                &&& a.reset_recipes && !a.counted && a.histo_text is None
                &&& final(shm).header == (ShmInterface {
                    run_id: final(shm).header.run_id,
                    ..old(shm).header
                })
                &&& final(shm).header.run_id@ == stored_run_id(vstd::utf8::encode_utf8(run_id@))
                &&& final(shm).spec_bins() == old(shm).spec_bins()
            },
            PostEvent::EndOfRun => {
                &&& *final(state) == *old(state) && *final(shm) == *old(shm)
                &&& a.replies@.len() == 0
                &&& a.forward == Some(Forward::EndOfRun)
                &&& !a.reset_recipes && !a.counted && a.histo_text is None
            },
            PostEvent::Clear => {
                &&& *final(state) == *old(state)
                &&& a.replies@.len() == 0
                &&& a.forward == Some(Forward::Clear)
                &&& !a.reset_recipes && !a.counted && a.histo_text is None
                &&& final(shm).header == old(shm).header
                &&& final(shm).spec_bins() == Seq::new(old(shm).spec_bins().len(), |i: int| 0u32)
            },
            PostEvent::InputState(name, st) => {
                &&& *final(shm) == *old(shm)
                &&& a.replies@.len() == 0 && a.forward is None
                &&& !a.reset_recipes && !a.counted && a.histo_text is None
                &&& final(state).mode_names@ == old(state).mode_names@
                &&& final(state).current == old(state).current
                &&& final(state).mode_name == old(state).mode_name
                &&& final(state).instance == old(state).instance
                &&& ({
                    let old_s = old(state).input_states@;
                    let new_s = final(state).input_states@;
                    if exists|i: int| 0 <= i < old_s.len() && old_s[i].0@ == name@ {
                        exists|i: int| 0 <= i < old_s.len() && old_s[i].0@ == name@ && new_s == old_s.update(i, (old_s[i].0, st))
                    } else {
                        new_s == old_s.push((name, st))
                    }
                })
            },
            PostEvent::GetModes => {
                &&& *final(state) == *old(state) && *final(shm) == *old(shm)
                &&& a.replies@ == seq![CommandReply::Data {
                    value: json_string_array(old(state).mode_names@.map_values(|s: String| s@)),
                }]
                &&& a.forward is None && !a.reset_recipes && !a.counted && a.histo_text is None
            },
            PostEvent::SetMode(name) => {
                &&& *final(shm) == *old(shm)
                &&& a.forward is None && !a.reset_recipes && !a.counted && a.histo_text is None
                &&& final(state).mode_names@ == old(state).mode_names@
                &&& final(state).input_states@ == old(state).input_states@
                &&& final(state).instance == old(state).instance
                &&& a.replies@.len() == 1
                &&& if exists|j: int| 0 <= j < old(state).mode_names@.len() && old(state).mode_names@[j]@ == name@ {
                    &&& a.replies@[0] == CommandReply::Done
                    &&& final(state).current < final(state).mode_names@.len()
                    &&& final(state).mode_names@[final(state).current as int]@ == name@
                    &&& forall|j: int| 0 <= j < final(state).current ==> final(state).mode_names@[j]@ != name@
                    &&& final(state).mode_name@ == name@
                } else {
                    &&& error_with(a.replies@[0], None, "Recipe "@ + name@ + " not found"@)
                    &&& final(state).current == old(state).current
                    &&& final(state).mode_name == old(state).mode_name
                }
            },
            PostEvent::GetState => {
                &&& *final(state) == *old(state) && *final(shm) == *old(shm)
                &&& a.replies@ == seq![CommandReply::Data { value: state_reply_value(*old(state)) }]
                &&& a.forward is None && !a.reset_recipes && !a.counted && a.histo_text is None
            },
            PostEvent::SaveHisto(max_nt) => {
                &&& *final(state) == *old(state) && *final(shm) == *old(shm)
                &&& a.replies@.len() == 0
                &&& a.histo_text matches Some(t) && t@ == histo_text_upto(
                    old(shm).bins@,
                    old(shm).header.nx as int,
                    old(shm).header.ny as int,
                    if old(shm).header.nt < (#[verifier::truncate] (max_nt as u16)) { old(shm).header.nt as int } else { (#[verifier::truncate] (max_nt as u16)) as int },
                )
                &&& a.forward is None && !a.reset_recipes && !a.counted
            },
            PostEvent::GetParams(full, reports) => {
                &&& *final(state) == *old(state) && *final(shm) == *old(shm)
                &&& a.replies@ == params_replies(old(state).mode_names@, reports@, full)
                &&& a.forward == Some(Forward::Params)
                &&& !a.reset_recipes && !a.counted && a.histo_text is None
            },
            PostEvent::SetParams(outcomes) => {
                &&& *final(state) == *old(state) && *final(shm) == *old(shm)
                &&& a.replies@.len() == outcomes@.len()
                &&& forall|i: int| 0 <= i < outcomes@.len() ==> match #[trigger] outcomes@[i].1 {
                    Ok(_) => a.replies@[i] == CommandReply::Done,
                    Err(e) => error_with(a.replies@[i], Some(outcomes@[i].0@), set_failed_text(e@)),
                }
                &&& a.forward == Some(Forward::Params)
                &&& !a.reset_recipes && !a.counted && a.histo_text is None
            },
        },
{
    let none = PostAction { replies: Vec::new(), forward: None, reset_recipes: false, counted: false, histo_text: None };
    match ev {
        PostEvent::Events(evs) => {
            let room = has_room(shm, &evs);
            if room {
                count_neutrons(shm, &evs);
            }
            PostAction { forward: Some(Forward::Events(evs)), counted: room, ..none }
        },
        PostEvent::StartOfRun(run_id) => {
            shm.header.set_run_id(run_id.as_str());
            PostAction { forward: Some(Forward::StartOfRun(run_id)), reset_recipes: true, ..none }
        },
        PostEvent::EndOfRun => PostAction { forward: Some(Forward::EndOfRun), ..none },
        PostEvent::Clear => {
            shm.clear_histo();
            PostAction { forward: Some(Forward::Clear), ..none }
        },
        PostEvent::InputState(name, st) => {
            state.set_input_state(name, st);
            none
        },
        PostEvent::GetModes => {
            let mut names: Vec<String> = Vec::new();
            let mut i: usize = 0;
            while i < state.mode_names.len()
                invariant
                    i <= state.mode_names@.len(),
                    names@ == state.mode_names@.subrange(0, i as int),
                decreases state.mode_names@.len() - i,
            {
                names.push(state.mode_names[i].clone());
                proof {
                    assert(names@ =~= state.mode_names@.subrange(0, i + 1));
                }
                i = i + 1;
            }
            assert(state.mode_names@.subrange(0, state.mode_names@.len() as int) =~= state.mode_names@);
            let mut replies: Vec<CommandReply> = Vec::new();
            replies.push(CommandReply::Data { value: string_array(names) });
            PostAction { replies, ..none }
        },
        PostEvent::SetMode(name) => {
            let r = state.set_mode(name.as_str());
            let reply = match r {
                Ok(()) => CommandReply::Done,
                Err(_) => {
                    let mut m = String::new();
                    push_str(&mut m, "Recipe ");
                    push_str(&mut m, name.as_str());
                    push_str(&mut m, " not found");
                    CommandReply::Error { module: None, message: m }
                },
            };
            let mut replies: Vec<CommandReply> = Vec::new();
            replies.push(reply);
            PostAction { replies, ..none }
        },
        PostEvent::GetState => {
            let v = state_reply(state);
            let mut replies: Vec<CommandReply> = Vec::new();
            replies.push(CommandReply::Data { value: v });
            PostAction { replies, ..none }
        },
        PostEvent::SaveHisto(max_nt) => {
            let t = shm.histo_text(max_nt);
            PostAction { histo_text: Some(t), ..none }
        },
        PostEvent::GetParams(full, reports) => {
            let ghost all = reports@;
            let mut rest = reports;
            let n = rest.len();
            let mut replies: Vec<CommandReply> = Vec::new();
            let mut i: usize = 0;
            while i < n
                invariant
                    i <= n,
                    n == all.len(),
                    n <= state.mode_names@.len(),
                    rest@ == all.subrange(i as int, n as int),
                    replies@ == params_replies(state.mode_names@, all, full).subrange(0, i as int),
                decreases n - i,
            {
                let r = rest.remove(0);
                proof {
                    assert(r == all[i as int]);
                }
                let v = report_json(state.mode_names[i].as_str(), r, full);
                replies.push(CommandReply::Data { value: v });
                proof {
                    assert(rest@ =~= all.subrange(i + 1, n as int));
                    assert(replies@ =~= params_replies(state.mode_names@, all, full).subrange(0, i + 1));
                }
                i = i + 1;
            }
            assert(params_replies(state.mode_names@, all, full).subrange(0, n as int) =~= params_replies(
                state.mode_names@,
                all,
                full,
            ));
            PostAction { replies, forward: Some(Forward::Params), ..none }
        },
        PostEvent::SetParams(outcomes) => {
            let mut replies: Vec<CommandReply> = Vec::new();
            let mut i: usize = 0;
            while i < outcomes.len()
                invariant
                    i <= outcomes@.len(),
                    replies@.len() == i,
                    forall|k: int| 0 <= k < i ==> match #[trigger] outcomes@[k].1 {
                        Ok(_) => replies@[k] == CommandReply::Done,
                        Err(e) => error_with(replies@[k], Some(outcomes@[k].0@), set_failed_text(e@)),
                    },
                decreases outcomes@.len() - i,
            {
                let reply = match &outcomes[i].1 {
                    Ok(()) => CommandReply::Done,
                    Err(e) => {
                        let mut m = String::new();
                        push_str(&mut m, "Failed to set parameters: ");
                        push_str(&mut m, e.as_str());
                        CommandReply::Error { module: Some(outcomes[i].0.clone()), message: m }
                    },
                };
                replies.push(reply);
                i = i + 1;
            }
            PostAction { replies, forward: Some(Forward::Params), ..none }
        },
    }
}

} // verus!
