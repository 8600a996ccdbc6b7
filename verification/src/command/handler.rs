//! The decisions of the command handler, as a state machine: which module
//! a command goes to, in what order, how many replies it waits for, and
//! what the client is answered. The caller does the sending and waiting
//! and reports how each went.

use vstd::prelude::*;
use crate::command::CommandReply;
use crate::text::push_str;
use crate::json::{empty_object, extend_object, json_entries, json_string, string_value};

verus! {

/// A control command, as far as the handler's decisions depend on it.
#[derive(Debug, Clone, Copy, PartialEq, Eq, Structural)]
pub enum CommandKind {
    Ping,
    Clear,
    GetState,
    GetModes,
    SetMode,
    SaveHisto,
    Start,
    Stop,
    SetRawDump,
    Reset,
    GetParams,
    SetParams,
    SaveConfig,
}

/// Who did not take a request or did not answer in time.
#[derive(Debug, Clone, Copy, PartialEq, Eq, Structural)]
pub enum Party {
    Postprocessor,
    /// The input with this index, in the order the inputs are kept.
    Input(usize),
    AnyInput,
    RecipesOrOutputs,
}

/// What a reply was.
#[derive(Debug, Clone, Copy, PartialEq, Eq, Structural)]
pub enum ReplyKind {
    Done,
    /// Data that is a JSON object.
    Object,
    /// Other data.
    OtherData,
    Error,
}

/// How the last action went.
#[derive(Debug, Clone, Copy, PartialEq, Eq, Structural)]
pub enum Outcome {
    Sent,
    SendFailed,
    Replied(ReplyKind),
    TimedOut,
    Closed,
}

/// What the client is answered.
#[derive(Debug, Clone, Copy, PartialEq, Eq, Structural)]
pub enum Answer {
    /// The program's name and version.
    Version,
    Done,
    /// That `who` did not respond in time.
    Unresponsive(Party),
    /// The `k`-th reply received for this command, counting from zero.
    Received(usize),
    /// Data: the union of the object replies received, in order.
    Gathered,
    /// The `k`-th parameter key lacks the `.` of `<module>.<param>`.
    InvalidKey(usize),
    /// The gathered parameters, written back to the configuration file.
    SaveGathered,
}

/// What the caller does next.
#[derive(Debug, Clone, Copy, PartialEq, Eq, Structural)]
pub enum Action {
    /// Send the command's request to the postprocessor: for `Start` the
    /// start of the run, for the parameter commands the parameters by
    /// module, otherwise the command itself.
    SendPost,
    /// Send the command to the input with this index.
    SendInput(usize),
    /// Wait for the next reply from `who`.
    Await(Party),
    /// Answer the client; the command is finished.
    Answer(Answer),
}

/// Where the handling of a command stands.
#[derive(Debug, Clone, Copy, PartialEq, Eq, Structural)]
pub enum Stage {
    PostSend,
    PostAwait,
    InputSend,
    InputAwait,
    ParamsAwait,
    Finished,
}

/// The handling of one command.
#[derive(Debug, Clone, Copy, PartialEq, Eq, Structural)]
pub struct Handler {
    pub kind: CommandKind,
    /// How many inputs there are.
    pub inputs: usize,
    pub stage: Stage,
    /// The input a request is being sent to.
    pub sent: usize,
    /// Replies received so far.
    pub received: usize,
    /// The first error among the inputs' replies, by its place among all
    /// replies.
    pub first_err: Option<usize>,
}

/// Commands answered by the postprocessor alone.
pub open spec fn is_post_query(k: CommandKind) -> bool {
    k == CommandKind::GetState || k == CommandKind::GetModes || k == CommandKind::SetMode
        || k == CommandKind::SaveHisto
}

/// Commands that also go through the recipes and outputs behind the
/// postprocessor after the inputs.
pub open spec fn asks_params(k: CommandKind) -> bool {
    k == CommandKind::GetParams || k == CommandKind::SetParams || k == CommandKind::SaveConfig
}

/// The first key at or after `i` without a `.`.
pub open spec fn bad_key_from(keys: Seq<Seq<char>>, i: int) -> Option<int>
    decreases keys.len() - i,
{
    if i < 0 || i >= keys.len() {
        None
    } else if !keys[i].contains('.') {
        Some(i)
    } else {
        bad_key_from(keys, i + 1)
    }
}

pub open spec fn finish(h: Handler, a: Answer) -> (Handler, Action) {
    (Handler { stage: Stage::Finished, ..h }, Action::Answer(a))
}

/// Once every input has replied.
pub open spec fn after_inputs(h: Handler) -> (Handler, Action) {
    if asks_params(h.kind) {
        (Handler { stage: Stage::PostSend, ..h }, Action::SendPost)
    } else {
        match h.first_err {
            Some(k) => finish(h, Answer::Received(k)),
            None => finish(h, Answer::Done),
        }
    }
}

/// Sending the command to the inputs, one after the other, from the first.
pub open spec fn begin_inputs(h: Handler) -> (Handler, Action) {
    if h.inputs == 0 {
        after_inputs(h)
    } else {
        (Handler { stage: Stage::InputSend, sent: 0, ..h }, Action::SendInput(0))
    }
}

/// The handling of a command of kind `kind` with `inputs` inputs and, for
/// `SetParams`, the parameter keys `keys`: where it starts and what is done
/// first.
pub open spec fn spec_start(kind: CommandKind, inputs: usize, keys: Seq<Seq<char>>) -> (Handler, Action) {
    let h = Handler { kind, inputs, stage: Stage::PostSend, sent: 0, received: 0, first_err: None };
    if kind == CommandKind::Ping {
        finish(h, Answer::Version)
    } else if kind == CommandKind::Clear || is_post_query(kind) || kind == CommandKind::Start {
        (h, Action::SendPost)
    } else if kind == CommandKind::SetParams && bad_key_from(keys, 0) is Some {
        finish(h, Answer::InvalidKey(bad_key_from(keys, 0)->0 as usize))
    } else {
        begin_inputs(h)
    }
}

/// Which outcomes can follow the action of stage `s`.
pub open spec fn expects(h: Handler, o: Outcome) -> bool {
    match h.stage {
        Stage::PostSend | Stage::InputSend => o is Sent || o is SendFailed,
        Stage::PostAwait | Stage::InputAwait | Stage::ParamsAwait => o is Replied || o is TimedOut
            || o is Closed,
        Stage::Finished => false,
    }
}

/// Where the handling goes after outcome `o`, and what is done next.
pub open spec fn spec_step(h: Handler, o: Outcome) -> (Handler, Action) {
    match h.stage {
        Stage::PostSend => match o {
            Outcome::Sent => if h.kind == CommandKind::Clear {
                finish(h, Answer::Done)
            } else if h.kind == CommandKind::Start {
                begin_inputs(h)
            } else if asks_params(h.kind) {
                (Handler { stage: Stage::ParamsAwait, ..h }, Action::Await(Party::RecipesOrOutputs))
            } else {
                (Handler { stage: Stage::PostAwait, ..h }, Action::Await(Party::Postprocessor))
            },
            _ => finish(h, Answer::Unresponsive(Party::Postprocessor)),
        },
        Stage::PostAwait => match o {
            Outcome::Replied(_) => finish(Handler { received: (h.received + 1) as usize, ..h }, Answer::Received(h.received)),
            _ => finish(h, Answer::Unresponsive(Party::Postprocessor)),
        },
        Stage::InputSend => match o {
            Outcome::Sent => if h.sent + 1 < h.inputs {
                (Handler { sent: (h.sent + 1) as usize, ..h }, Action::SendInput((h.sent + 1) as usize))
            } else {
                (Handler { stage: Stage::InputAwait, ..h }, Action::Await(Party::AnyInput))
            },
            _ => finish(h, Answer::Unresponsive(Party::Input(h.sent))),
        },
        Stage::InputAwait => match o {
            Outcome::Replied(r) => {
                let k = h.received;
                let h2 = Handler {
                    received: (k + 1) as usize,
                    first_err: if r == ReplyKind::Error && h.first_err is None { Some(k) } else { h.first_err },
                    ..h
                };
                if r == ReplyKind::Error && asks_params(h.kind) {
                    finish(h2, Answer::Received(k))
                } else if h2.received >= h.inputs {
                    after_inputs(h2)
                } else {
                    (h2, Action::Await(Party::AnyInput))
                }
            },
            _ => finish(h, Answer::Unresponsive(Party::AnyInput)),
        },
        Stage::ParamsAwait => match o {
            Outcome::Replied(r) => {
                let k = h.received;
                let h2 = Handler { received: (k + 1) as usize, ..h };
                if r == ReplyKind::Error && h.kind == CommandKind::SetParams {
                    finish(h2, Answer::Received(k))
                } else {
                    (h2, Action::Await(Party::RecipesOrOutputs))
                }
            },
            Outcome::Closed => if h.kind == CommandKind::GetParams {
                finish(h, Answer::Gathered)
            } else if h.kind == CommandKind::SetParams {
                finish(h, Answer::Done)
            } else {
                finish(h, Answer::SaveGathered)
            },
            _ => finish(h, Answer::Unresponsive(Party::RecipesOrOutputs)),
        },
        Stage::Finished => (h, Action::Answer(Answer::Done)),
    }
}


/// The place of the first error among `ks`, if any.
pub open spec fn first_error_at(ks: Seq<ReplyKind>) -> Option<int>
    decreases ks.len(),
{
    if ks.len() == 0 {
        None
    } else {
        match first_error_at(ks.drop_last()) {
            Some(i) => Some(i),
            None => if ks.last() == ReplyKind::Error { Some(ks.len() - 1) } else { None },
        }
    }
}

proof fn lemma_first_error_bounds(ks: Seq<ReplyKind>)
    ensures
        first_error_at(ks) matches Some(i) ==> 0 <= i < ks.len(),
    decreases ks.len(),
{
    if ks.len() > 0 {
        lemma_first_error_bounds(ks.drop_last());
    }
}

/// Commands that go to every input and are answered by their replies.
pub open spec fn is_plain_fan_out(k: CommandKind) -> bool {
    k == CommandKind::Stop || k == CommandKind::Reset || k == CommandKind::SetRawDump
}

/// A failed send, or a wait that timed out, ends the command with the
/// answer that the party concerned did not respond.
pub proof fn law_failures_are_answered(h: Handler, o: Outcome)
    requires
        expects(h, o),
        o is SendFailed || o is TimedOut,
    ensures
        spec_step(h, o).0.stage == Stage::Finished,
        spec_step(h, o).1 matches Action::Answer(Answer::Unresponsive(_)),
{
}

/// The actions asked for from state `h` with next action `a`, given the
/// outcomes `os` in turn: `a` first, up to and including the answer.
pub open spec fn trace(h: Handler, a: Action, os: Seq<Outcome>) -> Seq<Action>
    decreases os.len(),
{
    if os.len() == 0 || a is Answer {
        seq![a]
    } else {
        let next = spec_step(h, os[0]);
        seq![a] + trace(next.0, next.1, os.drop_first())
    }
}

/// The answer to a command sent to every input whose replies are `ks`.
pub open spec fn fan_out_answer(ks: Seq<ReplyKind>) -> Answer {
    match first_error_at(ks) {
        Some(i) => Answer::Received(i as usize),
        None => Answer::Done,
    }
}

/// Sending to the inputs from the `i`-th on, each taking the request:
/// each is asked once, in order, and then the replies are awaited.
proof fn lemma_send_all(h: Handler, rest: Seq<Outcome>)
    requires
        h.stage == Stage::InputSend,
        h.sent < h.inputs,
    ensures
        trace(h, Action::SendInput(h.sent), Seq::new((h.inputs - h.sent) as nat, |i: int| Outcome::Sent) + rest)
            == Seq::new((h.inputs - h.sent) as nat, |j: int| Action::SendInput((h.sent + j) as usize)) + trace(
            Handler { stage: Stage::InputAwait, sent: (h.inputs - 1) as usize, ..h },
            Action::Await(Party::AnyInput),
            rest,
        ),
    decreases h.inputs - h.sent,
{
    let sends = Seq::new((h.inputs - h.sent) as nat, |i: int| Outcome::Sent);
    let os = sends + rest;
    assert(os[0] == Outcome::Sent);
    let next = spec_step(h, Outcome::Sent);
    let asks = Seq::new((h.inputs - h.sent) as nat, |j: int| Action::SendInput((h.sent + j) as usize));
    assert(trace(h, Action::SendInput(h.sent), os) == seq![Action::SendInput(h.sent)] + trace(next.0, next.1, os.drop_first()));
    if h.sent + 1 < h.inputs {
        let h2 = Handler { sent: (h.sent + 1) as usize, ..h };
        assert(os.drop_first() =~= Seq::new((h2.inputs - h2.sent) as nat, |i: int| Outcome::Sent) + rest);
        lemma_send_all(h2, rest);
        let asks2 = Seq::new((h2.inputs - h2.sent) as nat, |j: int| Action::SendInput((h2.sent + j) as usize));
        assert(seq![Action::SendInput(h.sent)] + asks2 =~= asks);
    } else {
        assert(os.drop_first() =~= rest);
        assert(seq![Action::SendInput(h.sent)] =~= asks);
    }
}

/// Waiting for the replies of the inputs from the `j`-th on: one wait per
/// reply, then the answer.
proof fn lemma_await_all(h: Handler, ks: Seq<ReplyKind>)
    requires
        !asks_params(h.kind),
        h.stage == Stage::InputAwait,
        h.received < h.inputs,
        ks.len() == h.inputs,
        h.first_err == (match first_error_at(ks.take(h.received as int)) {
            Some(i) => Some(i as usize),
            None => None::<usize>,
        }),
    ensures
        trace(h, Action::Await(Party::AnyInput), ks.skip(h.received as int).map_values(|k: ReplyKind| Outcome::Replied(k)))
            == Seq::new((h.inputs - h.received) as nat, |j: int| Action::Await(Party::AnyInput)).push(
            Action::Answer(fan_out_answer(ks)),
        ),
    decreases h.inputs - h.received,
{
    let j = h.received as int;
    let os = ks.skip(j).map_values(|k: ReplyKind| Outcome::Replied(k));
    let waits = Seq::new((h.inputs - h.received) as nat, |j: int| Action::Await(Party::AnyInput));
    assert(os[0] == Outcome::Replied(ks[j]));
    assert(ks.take(j + 1).drop_last() =~= ks.take(j));
    assert(ks.take(j + 1).last() == ks[j]);
    lemma_first_error_bounds(ks.take(j));
    lemma_first_error_bounds(ks.take(j + 1));
    lemma_first_error_bounds(ks);
    let next = spec_step(h, os[0]);
    assert(next.0.first_err == (match first_error_at(ks.take(j + 1)) {
        Some(i) => Some(i as usize),
        None => None::<usize>,
    }));
    assert(trace(h, Action::Await(Party::AnyInput), os) == seq![Action::Await(Party::AnyInput)] + trace(
        next.0,
        next.1,
        os.drop_first(),
    ));
    if j + 1 < h.inputs {
        assert(os.drop_first() =~= ks.skip(j + 1).map_values(|k: ReplyKind| Outcome::Replied(k)));
        lemma_await_all(next.0, ks);
        let waits2 = Seq::new((next.0.inputs - next.0.received) as nat, |j: int| Action::Await(Party::AnyInput));
        assert(seq![Action::Await(Party::AnyInput)] + waits2.push(Action::Answer(fan_out_answer(ks)))
            =~= waits.push(Action::Answer(fan_out_answer(ks))));
    } else {
        assert(ks.take(j + 1) =~= ks);
        assert(next.1 == Action::Answer(fan_out_answer(ks)));
        assert(trace(next.0, next.1, os.drop_first()) == seq![next.1]);
        assert(seq![Action::Await(Party::AnyInput)] + seq![next.1] =~= waits.push(next.1));
    }
}

/// A command sent to every input (`start`, `stop`, `reset`,
/// `set-raw-dump`) with `n` inputs that all take it and reply `ks`, in that
/// order: for `start` the start of the run goes to the postprocessor
/// first; then each input is asked once, in order; one reply is awaited
/// per input; and the answer is the first error among the replies, or done
/// where there is none.
pub proof fn law_fan_out_answers_first_error(kind: CommandKind, ks: Seq<ReplyKind>)
    requires
        is_plain_fan_out(kind) || kind == CommandKind::Start,
        1 <= ks.len() <= usize::MAX,
    ensures
        ({
            let n = ks.len() as usize;
            let start = spec_start(kind, n, Seq::empty());
            let post: Seq<Outcome> = if kind == CommandKind::Start { seq![Outcome::Sent] } else { seq![] };
            let os = post + Seq::new(ks.len(), |i: int| Outcome::Sent) + ks.map_values(|k: ReplyKind| Outcome::Replied(k));
            let first: Seq<Action> = if kind == CommandKind::Start { seq![Action::SendPost] } else { seq![] };
            trace(start.0, start.1, os) == first + Seq::new(ks.len(), |i: int| Action::SendInput(i as usize))
                + Seq::new(ks.len(), |i: int| Action::Await(Party::AnyInput)).push(Action::Answer(fan_out_answer(ks)))
        }),
{
    let n = ks.len() as usize;
    let start = spec_start(kind, n, Seq::empty());
    let replies = ks.map_values(|k: ReplyKind| Outcome::Replied(k));
    let sends = Seq::new(ks.len(), |i: int| Outcome::Sent);
    let h0 = Handler { kind, inputs: n, stage: Stage::InputSend, sent: 0, received: 0, first_err: None };
    lemma_send_all(h0, replies);
    let h = Handler { stage: Stage::InputAwait, sent: (n - 1) as usize, ..h0 };
    assert(ks.take(0) =~= Seq::<ReplyKind>::empty());
    assert(ks.skip(0) =~= ks);
    lemma_await_all(h, ks);
    let asks = Seq::new(ks.len(), |i: int| Action::SendInput(i as usize));
    assert(Seq::new((h0.inputs - h0.sent) as nat, |j: int| Action::SendInput((h0.sent + j) as usize)) =~= asks);
    assert(Seq::new((h.inputs - h.received) as nat, |j: int| Action::Await(Party::AnyInput)) =~= Seq::new(
        ks.len(),
        |i: int| Action::Await(Party::AnyInput),
    ));
    if kind == CommandKind::Start {
        let os = seq![Outcome::Sent] + sends + replies;
        assert(os[0] == Outcome::Sent);
        assert(os.drop_first() =~= sends + replies);
        assert(start.1 == Action::SendPost);
        assert(spec_step(start.0, Outcome::Sent) == (h0, Action::SendInput(0)));
        assert(trace(start.0, start.1, os) == seq![Action::SendPost] + trace(h0, Action::SendInput(0), sends + replies));
        assert(seq![Outcome::Sent] + sends + replies =~= seq![Outcome::Sent] + (sends + replies));
    } else {
        assert(Seq::<Outcome>::empty() + sends + replies =~= sends + replies);
        assert(start == (h0, Action::SendInput(0)));
    }
    assert(Seq::<Action>::empty() + asks =~= asks);
}

/// The entries of a reply that is data holding a JSON object.
pub open spec fn reply_entries(r: CommandReply) -> Option<Map<Seq<char>, serde_json::Value>> {
    match r {
        CommandReply::Data { value } => json_entries(value),
        _ => None,
    }
}

/// The union of the entries of the replies among `rs` that are JSON
/// objects, in order, later keys replacing earlier ones.
pub open spec fn gathered(rs: Seq<CommandReply>) -> Map<Seq<char>, serde_json::Value>
    decreases rs.len(),
{
    if rs.len() == 0 {
        Map::empty()
    } else {
        let before = gathered(rs.drop_last());
        match reply_entries(rs.last()) {
            Some(o) => before.union_prefer_right(o),
            None => before,
        }
    }
}

/// The union of the data replies among `received` that are JSON objects,
/// in order, later keys replacing earlier ones.
pub fn gather(received: &Vec<CommandReply>) -> (r: serde_json::Value)
    ensures
        json_entries(r) == Some(gathered(received@)),
{
    let mut acc = empty_object();
    let mut i: usize = 0;
    while i < received.len()
        invariant
            i <= received@.len(),
            json_entries(acc) == Some(gathered(received@.subrange(0, i as int))),
        decreases received@.len() - i,
    {
        proof {
            assert(received@.subrange(0, i + 1).drop_last() =~= received@.subrange(0, i as int));
            assert(received@.subrange(0, i + 1).last() == received@[i as int]);
        }
        match &received[i] {
            CommandReply::Data { value } => extend_object(&mut acc, value),
            _ => {},
        }
        i = i + 1;
    }
    assert(received@.subrange(0, received@.len() as int) =~= received@);
    acc
}

/// How a party is named in a reply: `names` are the inputs' names.
pub open spec fn party_text(p: Party, names: Seq<Seq<char>>) -> Seq<char> {
    match p {
        Party::Postprocessor => "Postprocessor"@,
        Party::Input(i) => "Input "@ + names[i as int],
        Party::AnyInput => "An input"@,
        Party::RecipesOrOutputs => "A recipe or output"@,
    }
}

/// The message that `who` did not answer within the two seconds a command
/// waits.
pub open spec fn unresponsive_text(who: Seq<char>) -> Seq<char> {
    who + " did not respond within 2s; it may be stuck"@
}

/// The message refusing the parameter key `key`.
pub open spec fn invalid_key_text(key: Seq<char>) -> Seq<char> {
    "Invalid param key "@ + key + ", needs to be of the form <module>.<param>"@
}

/// The characters of each string.
pub open spec fn texts(v: Seq<String>) -> Seq<Seq<char>> {
    v.map_values(|s: String| s@)
}

/// An error reply without a module.
pub open spec fn error_reply(r: CommandReply, message: Seq<char>) -> bool {
    r matches CommandReply::Error { module, message: m } && module is None && m@ == message
}

/// The reply that answer `answer` stands for: `keys` are the command's
/// parameter keys, `names` the inputs' names, `version` the program's
/// version, `received` the replies received in order, and `saved` how
/// writing the configuration went (only looked at for `SaveGathered`).
pub fn reply_for(
    answer: Answer,
    keys: &Vec<String>,
    names: &Vec<String>,
    version: &str,
    received: Vec<CommandReply>,
    saved: Result<(), String>,
) -> (r: CommandReply)
    requires
        answer matches Answer::InvalidKey(k) ==> k < keys@.len(),
        answer matches Answer::Received(k) ==> k < received@.len(),
        answer matches Answer::Unresponsive(Party::Input(i)) ==> i < names@.len(),
    ensures
        match answer {
            Answer::Version => r == CommandReply::Data { value: json_string("UMAMI "@ + version@) },
            Answer::Done => r == CommandReply::Done,
            Answer::Unresponsive(p) => error_reply(r, unresponsive_text(party_text(p, texts(names@)))),
            Answer::Received(k) => r == received@[k as int],
            Answer::Gathered => r matches CommandReply::Data { value } && json_entries(value) == Some(gathered(received@)),
            Answer::InvalidKey(k) => error_reply(r, invalid_key_text(keys@[k as int]@)),
            Answer::SaveGathered => match saved {
                Ok(_) => r == CommandReply::Done,
                Err(e) => error_reply(r, "Failed to save config: "@ + e@),
            },
        },
{
    match answer {
        Answer::Version => {
            let mut v = String::new();
            push_str(&mut v, "UMAMI ");
            push_str(&mut v, version);
            CommandReply::Data { value: string_value(v) }
        },
        Answer::Done => CommandReply::Done,
        Answer::Unresponsive(p) => {
            let mut m = String::new();
            match p {
                Party::Postprocessor => push_str(&mut m, "Postprocessor"),
                Party::Input(i) => {
                    push_str(&mut m, "Input ");
                    push_str(&mut m, names[i].as_str());
                },
                Party::AnyInput => push_str(&mut m, "An input"),
                Party::RecipesOrOutputs => push_str(&mut m, "A recipe or output"),
            }
            assert(m@ == party_text(p, texts(names@)));
            push_str(&mut m, " did not respond within 2s; it may be stuck");
            CommandReply::Error { module: None, message: m }
        },
        Answer::Received(k) => {
            let mut received = received;
            received.remove(k)
        },
        Answer::Gathered => CommandReply::Data { value: gather(&received) },
        Answer::InvalidKey(k) => {
            let mut m = String::new();
            push_str(&mut m, "Invalid param key ");
            push_str(&mut m, keys[k].as_str());
            push_str(&mut m, ", needs to be of the form <module>.<param>");
            CommandReply::Error { module: None, message: m }
        },
        Answer::SaveGathered => match saved {
            Ok(()) => CommandReply::Done,
            Err(e) => {
                let mut m = String::new();
                push_str(&mut m, "Failed to save config: ");
                push_str(&mut m, e.as_str());
                CommandReply::Error { module: None, message: m }
            },
        },
    }
}

/// The first key without a `.`.
fn bad_key(keys: &Vec<String>) -> (r: Option<usize>)
    ensures
        match r {
            Some(k) => bad_key_from(keys@.map_values(|s: String| s@), 0) == Some(k as int),
            None => bad_key_from(keys@.map_values(|s: String| s@), 0) is None,
        },
{
    let ghost ks = keys@.map_values(|s: String| s@);
    let mut i: usize = 0;
    while i < keys.len()
        invariant
            i <= keys@.len(),
            ks == keys@.map_values(|s: String| s@),
            bad_key_from(ks, 0) == bad_key_from(ks, i as int),
        decreases keys@.len() - i,
    {
        if !crate::command::param_key_valid(keys[i].as_str()) {
            return Some(i);
        }
        i = i + 1;
    }
    None
}

impl Handler {
    /// Starts handling a command of kind `kind` with `inputs` inputs; for
    /// `SetParams`, `keys` are its parameter keys (otherwise unused).
    pub fn start(kind: CommandKind, inputs: usize, keys: &Vec<String>) -> (r: (Handler, Action))
        ensures
            r == spec_start(kind, inputs, keys@.map_values(|s: String| s@)),
    {
        let h = Handler { kind, inputs, stage: Stage::PostSend, sent: 0, received: 0, first_err: None };
        match kind {
            CommandKind::Ping => (Handler { stage: Stage::Finished, ..h }, Action::Answer(Answer::Version)),
            CommandKind::Clear | CommandKind::GetState | CommandKind::GetModes | CommandKind::SetMode
            | CommandKind::SaveHisto | CommandKind::Start => (h, Action::SendPost),
            _ => {
                if kind == CommandKind::SetParams {
                    match bad_key(keys) {
                        Some(k) => {
                            return (Handler { stage: Stage::Finished, ..h }, Action::Answer(Answer::InvalidKey(k)));
                        },
                        None => {},
                    }
                }
                Self::begin_inputs(h)
            },
        }
    }

    fn after_inputs(h: Handler) -> (r: (Handler, Action))
        ensures
            r == after_inputs(h),
    {
        match h.kind {
            CommandKind::GetParams | CommandKind::SetParams | CommandKind::SaveConfig => {
                (Handler { stage: Stage::PostSend, ..h }, Action::SendPost)
            },
            _ => {
                let a = match h.first_err {
                    Some(k) => Answer::Received(k),
                    None => Answer::Done,
                };
                (Handler { stage: Stage::Finished, ..h }, Action::Answer(a))
            },
        }
    }

    fn begin_inputs(h: Handler) -> (r: (Handler, Action))
        ensures
            r == begin_inputs(h),
    {
        if h.inputs == 0 {
            Self::after_inputs(h)
        } else {
            (Handler { stage: Stage::InputSend, sent: 0, ..h }, Action::SendInput(0))
        }
    }

    /// The next step after outcome `o` of the last action.
    pub fn step(&self, o: Outcome) -> (r: (Handler, Action))
        requires
            expects(*self, o),
            self.received < usize::MAX,
        ensures
            r == spec_step(*self, o),
    {
        let h = *self;
        let fin = Handler { stage: Stage::Finished, ..h };
        match h.stage {
            Stage::PostSend => match o {
                Outcome::Sent => {
                    match h.kind {
                        CommandKind::Clear => (fin, Action::Answer(Answer::Done)),
                        CommandKind::Start => Self::begin_inputs(h),
                        CommandKind::GetParams | CommandKind::SetParams | CommandKind::SaveConfig => {
                            (Handler { stage: Stage::ParamsAwait, ..h }, Action::Await(Party::RecipesOrOutputs))
                        },
                        _ => (Handler { stage: Stage::PostAwait, ..h }, Action::Await(Party::Postprocessor)),
                    }
                },
                _ => (fin, Action::Answer(Answer::Unresponsive(Party::Postprocessor))),
            },
            Stage::PostAwait => match o {
                Outcome::Replied(_) => (
                    Handler { stage: Stage::Finished, received: h.received + 1, ..h },
                    Action::Answer(Answer::Received(h.received)),
                ),
                _ => (fin, Action::Answer(Answer::Unresponsive(Party::Postprocessor))),
            },
            Stage::InputSend => match o {
                Outcome::Sent => {
                    if h.sent < h.inputs && h.inputs - h.sent > 1 {
                        (Handler { sent: h.sent + 1, ..h }, Action::SendInput(h.sent + 1))
                    } else {
                        (Handler { stage: Stage::InputAwait, ..h }, Action::Await(Party::AnyInput))
                    }
                },
                _ => (fin, Action::Answer(Answer::Unresponsive(Party::Input(h.sent)))),
            },
            Stage::InputAwait => match o {
                Outcome::Replied(r) => {
                    let k = h.received;
                    let is_err = r == ReplyKind::Error;
                    let first_err = if is_err && h.first_err.is_none() { Some(k) } else { h.first_err };
                    let h2 = Handler { received: k + 1, first_err, ..h };
                    let params = match h.kind {
                        CommandKind::GetParams | CommandKind::SetParams | CommandKind::SaveConfig => true,
                        _ => false,
                    };
                    if is_err && params {
                        (Handler { stage: Stage::Finished, ..h2 }, Action::Answer(Answer::Received(k)))
                    } else if h2.received >= h.inputs {
                        Self::after_inputs(h2)
                    } else {
                        (h2, Action::Await(Party::AnyInput))
                    }
                },
                _ => (fin, Action::Answer(Answer::Unresponsive(Party::AnyInput))),
            },
            Stage::ParamsAwait => match o {
                Outcome::Replied(r) => {
                    let k = h.received;
                    let h2 = Handler { received: k + 1, ..h };
                    if r == ReplyKind::Error && h.kind == CommandKind::SetParams {
                        (Handler { stage: Stage::Finished, ..h2 }, Action::Answer(Answer::Received(k)))
                    } else {
                        (h2, Action::Await(Party::RecipesOrOutputs))
                    }
                },
                Outcome::Closed => {
                    let a = match h.kind {
                        CommandKind::GetParams => Answer::Gathered,
                        CommandKind::SetParams => Answer::Done,
                        _ => Answer::SaveGathered,
                    };
                    (fin, Action::Answer(a))
                },
                _ => (fin, Action::Answer(Answer::Unresponsive(Party::RecipesOrOutputs))),
            },
            Stage::Finished => (h, Action::Answer(Answer::Done)),
        }
    }
}

} // verus!
