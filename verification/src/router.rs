//! The event router: what to do for each MIDI message of an audio cycle.
//!
//! The router holds no state between cycles. For every byte sequence it
//! plans exactly one [`Step`], in the order of arrival: a key action to
//! dispatch, a notice to show, or nothing. The host performs the steps and
//! tells the router how each dispatch went.
//!
//! A note-on for a note that is already down plans another key-down: held
//! notes are not tracked.

use crate::config::{bindings_of, law_last_binding_wins, Config};
use crate::midi::{decode, decoding, MidiEvent};
use crate::note_key::{note_of_key, KeyError};
use vstd::prelude::*;

verus! {

/// A key-simulation call that is due, with the action descriptor to send.
#[derive(Clone, Copy, Debug, PartialEq, Eq)]
pub enum KeyAction<'a> {
    /// Press the keys that the descriptor names.
    Down(&'a str),
    /// Release the keys that the descriptor names.
    Up(&'a str),
}

/// A [`KeyAction`] as a mathematical value.
pub enum KeyActionView {
    Down(Seq<char>),
    Up(Seq<char>),
}

impl<'a> View for KeyAction<'a> {
    type V = KeyActionView;

    open spec fn view(&self) -> KeyActionView {
        match self {
            KeyAction::Down(action) => KeyActionView::Down(action@),
            KeyAction::Up(action) => KeyActionView::Up(action@),
        }
    }
}

/// Something to tell the operator. None of these stops the cycle.
#[derive(Clone, Copy, Debug, PartialEq, Eq)]
pub enum Notice<'a> {
    /// A byte sequence was not a MIDI message.
    Malformed,
    /// A note-on arrived for a note that no key binding mentions.
    Unmapped(u8),
    /// The key-simulation call for this action failed.
    DispatchFailed(KeyAction<'a>),
}

/// A [`Notice`] as a mathematical value.
pub enum NoticeView {
    Malformed,
    Unmapped(u8),
    DispatchFailed(KeyActionView),
}

impl<'a> View for Notice<'a> {
    type V = NoticeView;

    open spec fn view(&self) -> NoticeView {
        match self {
            Notice::Malformed => NoticeView::Malformed,
            Notice::Unmapped(note) => NoticeView::Unmapped(*note),
            Notice::DispatchFailed(action) => NoticeView::DispatchFailed(action@),
        }
    }
}

/// How much weight a notice carries.
#[derive(Clone, Copy, Debug, PartialEq, Eq, Structural)]
pub enum Severity {
    /// Worth knowing; nothing went wrong.
    Info,
    /// Something that was meant to happen did not.
    Error,
}

/// What the router plans for one MIDI message.
#[derive(Clone, Copy, Debug, PartialEq, Eq)]
pub enum Step<'a> {
    /// Make one key-simulation call.
    Dispatch(KeyAction<'a>),
    /// Make no call and show one notice.
    Notify(Notice<'a>),
    /// Make no call and show nothing.
    Ignore,
}

/// A [`Step`] as a mathematical value.
pub enum StepView {
    Dispatch(KeyActionView),
    Notify(NoticeView),
    Ignore,
}

impl<'a> View for Step<'a> {
    type V = StepView;

    open spec fn view(&self) -> StepView {
        match self {
            Step::Dispatch(action) => StepView::Dispatch(action@),
            Step::Notify(notice) => StepView::Notify(notice@),
            Step::Ignore => StepView::Ignore,
        }
    }
}

/// What the host's audio subsystem is told at the end of a cycle.
#[derive(Clone, Copy, Debug, PartialEq, Eq, Structural)]
pub enum HostControl {
    /// Keep calling.
    Continue,
    /// Stop calling.
    Quit,
}

/// The step for one decoded event; `None` stands for malformed bytes.
///
/// A mapped note-on is a key-down and a mapped note-off a key-up, both with
/// the action bound to the note. An unmapped note-on is worth a notice, an
/// unmapped note-off is not: no key went down for it.
pub open spec fn route(keybinds: Map<u8, Seq<char>>, event: Option<MidiEvent>) -> StepView {
    match event {
        None => StepView::Notify(NoticeView::Malformed),
        Some(MidiEvent::NoteOn(note)) => if keybinds.contains_key(note) {
            StepView::Dispatch(KeyActionView::Down(keybinds[note]))
        } else {
            StepView::Notify(NoticeView::Unmapped(note))
        },
        Some(MidiEvent::NoteOff(note)) => if keybinds.contains_key(note) {
            StepView::Dispatch(KeyActionView::Up(keybinds[note]))
        } else {
            StepView::Ignore
        },
        Some(MidiEvent::Other) => StepView::Ignore,
    }
}

/// The steps for the byte sequences of one cycle: one step for each, in the
/// same order, each decided by its own bytes alone.
pub open spec fn plan(keybinds: Map<u8, Seq<char>>, events: Seq<Seq<u8>>) -> Seq<StepView> {
    Seq::new(events.len(), |i: int| route(keybinds, decoding(events[i])))
}

/// The key-simulation calls among `steps`, in order.
pub open spec fn calls(steps: Seq<StepView>) -> Seq<KeyActionView>
    decreases steps.len(),
{
    if steps.len() == 0 {
        Seq::empty()
    } else {
        match steps.last() {
            StepView::Dispatch(action) => calls(steps.drop_last()).push(action),
            _ => calls(steps.drop_last()),
        }
    }
}

/// The notices among `steps`, in order.
pub open spec fn notices(steps: Seq<StepView>) -> Seq<NoticeView>
    decreases steps.len(),
{
    if steps.len() == 0 {
        Seq::empty()
    } else {
        match steps.last() {
            StepView::Notify(notice) => notices(steps.drop_last()).push(notice),
            _ => notices(steps.drop_last()),
        }
    }
}

/// What the router planned for one cycle.
pub struct Cycle<'a> {
    /// One step for each byte sequence of the cycle, in order of arrival.
    pub steps: Vec<Step<'a>>,
    /// What to tell the host when the steps are done.
    pub control: HostControl,
}

/// A [`Cycle`] as a mathematical value.
pub struct CycleView {
    pub steps: Seq<StepView>,
    pub control: HostControl,
}

impl<'a> View for Cycle<'a> {
    type V = CycleView;

    open spec fn view(&self) -> CycleView {
        CycleView {
            steps: Seq::new(self.steps@.len(), |i: int| self.steps@[i]@),
            control: self.control,
        }
    }
}

/// The byte sequences that a cycle's events hold.
pub open spec fn event_bytes(events: Seq<&[u8]>) -> Seq<Seq<u8>> {
    Seq::new(events.len(), |i: int| events[i]@)
}

/// Plans the step for one decoded event; `None` stands for malformed bytes.
pub fn route_event<'a>(config: &'a Config, event: Option<MidiEvent>) -> (step: Step<'a>)
    ensures
        step@ == route(config@.keybinds, event),
{
    match event {
        None => Step::Notify(Notice::Malformed),
        Some(MidiEvent::NoteOn(note)) => match config.action(note) {
            Some(action) => Step::Dispatch(KeyAction::Down(action)),
            None => Step::Notify(Notice::Unmapped(note)),
        },
        Some(MidiEvent::NoteOff(note)) => match config.action(note) {
            Some(action) => Step::Dispatch(KeyAction::Up(action)),
            None => Step::Ignore,
        },
        Some(MidiEvent::Other) => Step::Ignore,
    }
}

/// Decodes one MIDI byte sequence and plans the step for it.
pub fn route_bytes<'a>(config: &'a Config, bytes: &[u8]) -> (step: Step<'a>)
    ensures
        step@ == route(config@.keybinds, decoding(bytes@)),
{
    route_event(config, decode(bytes))
}

/// Decides what the host is told when the messages of a cycle are done:
/// always to go on. The router never asks for its own shutdown.
pub fn end_of_cycle() -> (control: HostControl)
    ensures
        control == HostControl::Continue,
{
    HostControl::Continue
}

/// Plans the steps for all byte sequences of one audio cycle, in the order
/// in which they arrived, and tells the host to go on.
pub fn process_cycle<'a>(config: &'a Config, events: &[&[u8]]) -> (cycle: Cycle<'a>)
    ensures
        cycle@.steps == plan(config@.keybinds, event_bytes(events@)),
        cycle@.control == HostControl::Continue,
{
    let mut steps: Vec<Step<'a>> = Vec::new();
    let mut i: usize = 0;
    while i < events.len()
        invariant
            i <= events.len(),
            steps@.len() == i,
            forall|j: int|
                0 <= j < i ==> (#[trigger] steps@[j])@ == route(
                    config@.keybinds,
                    decoding(events@[j]@),
                ),
        decreases events.len() - i,
    {
        let step = route_bytes(config, events[i]);
        steps.push(step);
        i += 1;
    }
    Cycle { steps, control: end_of_cycle() }
}

/// Decides what follows a key-simulation call: a failed call is worth a
/// notice, a delivered one is not. Either way the cycle goes on.
pub fn after_dispatch<'a>(action: KeyAction<'a>, delivered: bool) -> (notice: Option<Notice<'a>>)
    ensures
        match notice {
            Some(failure) => !delivered && failure@ == NoticeView::DispatchFailed(action@),
            None => delivered,
        },
{
    if delivered {
        None
    } else {
        Some(Notice::DispatchFailed(action))
    }
}

/// The weight of a notice: an unmapped note is information, the others are
/// errors.
pub open spec fn severity_of(notice: NoticeView) -> Severity {
    match notice {
        NoticeView::Unmapped(_) => Severity::Info,
        _ => Severity::Error,
    }
}

impl<'a> Notice<'a> {
    /// How much weight this notice carries.
    pub fn severity(&self) -> (level: Severity)
        ensures
            level == severity_of(self@),
    {
        match self {
            Notice::Unmapped(_) => Severity::Info,
            _ => Severity::Error,
        }
    }
}

/// A note-on for a bound note is exactly one key-down call with the bound
/// action and no notice; a note-off for it is exactly one key-up call with
/// the same action and no notice.
pub proof fn law_mapped_note_dispatches(keybinds: Map<u8, Seq<char>>, note: u8)
    requires
        keybinds.contains_key(note),
    ensures
        route(keybinds, Some(MidiEvent::NoteOn(note))) == StepView::Dispatch(
            KeyActionView::Down(keybinds[note]),
        ),
        route(keybinds, Some(MidiEvent::NoteOff(note))) == StepView::Dispatch(
            KeyActionView::Up(keybinds[note]),
        ),
        calls(seq![route(keybinds, Some(MidiEvent::NoteOn(note)))]) == seq![
            KeyActionView::Down(keybinds[note]),
        ],
        calls(seq![route(keybinds, Some(MidiEvent::NoteOff(note)))]) == seq![
            KeyActionView::Up(keybinds[note]),
        ],
        notices(seq![route(keybinds, Some(MidiEvent::NoteOn(note)))]).len() == 0,
        notices(seq![route(keybinds, Some(MidiEvent::NoteOff(note)))]).len() == 0,
{
    lemma_one_step(route(keybinds, Some(MidiEvent::NoteOn(note))));
    lemma_one_step(route(keybinds, Some(MidiEvent::NoteOff(note))));
}

/// What a table binds is what the router sends: a note-on for the note of an
/// entry that no later entry overrides is a key-down with that entry's
/// action, and a note-off for it a key-up with the same action.
pub proof fn law_loaded_binding_is_dispatched(
    entries: Seq<(Seq<char>, Seq<char>)>,
    i: int,
    note: u8,
)
    requires
        0 <= i < entries.len(),
        note_of_key(entries[i].0) == Ok::<u8, KeyError>(note),
        forall|j: int|
            i < j < entries.len() ==> note_of_key(#[trigger] entries[j].0) != Ok::<u8, KeyError>(
                note,
            ),
    ensures
        route(bindings_of(entries), Some(MidiEvent::NoteOn(note))) == StepView::Dispatch(
            KeyActionView::Down(entries[i].1),
        ),
        route(bindings_of(entries), Some(MidiEvent::NoteOff(note))) == StepView::Dispatch(
            KeyActionView::Up(entries[i].1),
        ),
{
    law_last_binding_wins(entries, i, note);
}

/// A note-on for a note that is not bound is no call and one notice that the
/// note is unmapped; a note-off for it is no call and no notice.
pub proof fn law_unmapped_note_makes_no_call(keybinds: Map<u8, Seq<char>>, note: u8)
    requires
        !keybinds.contains_key(note),
    ensures
        route(keybinds, Some(MidiEvent::NoteOn(note))) == StepView::Notify(
            NoticeView::Unmapped(note),
        ),
        route(keybinds, Some(MidiEvent::NoteOff(note))) == StepView::Ignore,
        calls(seq![route(keybinds, Some(MidiEvent::NoteOn(note)))]).len() == 0,
        calls(seq![route(keybinds, Some(MidiEvent::NoteOff(note)))]).len() == 0,
        notices(seq![route(keybinds, Some(MidiEvent::NoteOn(note)))]) == seq![
            NoticeView::Unmapped(note),
        ],
        notices(seq![route(keybinds, Some(MidiEvent::NoteOff(note)))]).len() == 0,
{
    lemma_one_step(route(keybinds, Some(MidiEvent::NoteOn(note))));
    lemma_one_step(route(keybinds, Some(MidiEvent::NoteOff(note))));
}

/// The plan for a cycle is the plan for its first part followed by the plan
/// for the rest: no event changes what is planned for another.
pub proof fn law_plan_follows_arrival_order(
    keybinds: Map<u8, Seq<char>>,
    before: Seq<Seq<u8>>,
    after: Seq<Seq<u8>>,
)
    ensures
        plan(keybinds, before + after) == plan(keybinds, before) + plan(keybinds, after),
{
}

/// The calls of two runs of steps, one after the other, are the calls of the
/// first followed by those of the second; likewise for the notices.
pub proof fn law_calls_and_notices_concatenate(first: Seq<StepView>, second: Seq<StepView>)
    ensures
        calls(first + second) == calls(first) + calls(second),
        notices(first + second) == notices(first) + notices(second),
    decreases second.len(),
{
    if second.len() > 0 {
        let both = first + second;
        assert(both.drop_last() =~= first + second.drop_last());
        law_calls_and_notices_concatenate(first, second.drop_last());
    }
}

/// A malformed byte sequence does not halt the cycle: the events before and
/// after it are planned as if it were not there, it adds one notice, and the
/// calls of the cycle are those of the other events.
pub proof fn law_malformed_bytes_do_not_halt(
    keybinds: Map<u8, Seq<char>>,
    before: Seq<Seq<u8>>,
    bad: Seq<u8>,
    after: Seq<Seq<u8>>,
)
    requires
        decoding(bad) is None,
    ensures
        plan(keybinds, before + seq![bad] + after) == plan(keybinds, before) + seq![
            StepView::Notify(NoticeView::Malformed),
        ] + plan(keybinds, after),
        calls(plan(keybinds, before + seq![bad] + after)) == calls(plan(keybinds, before + after)),
        notices(plan(keybinds, before + seq![bad] + after)) == notices(plan(keybinds, before))
            + seq![NoticeView::Malformed] + notices(plan(keybinds, after)),
{
    lemma_one_step(StepView::Notify(NoticeView::Malformed));
    lemma_one_event_in_a_cycle(keybinds, before, bad, after);
    assert(calls(plan(keybinds, before)) + Seq::<KeyActionView>::empty() + calls(
        plan(keybinds, after),
    ) =~= calls(plan(keybinds, before)) + calls(plan(keybinds, after)));
}

/// A message that is neither note-on nor note-off changes nothing: the
/// events around it are planned as if it were not there, and the calls and
/// notices of the cycle are those of the other events.
pub proof fn law_other_messages_are_ignored(
    keybinds: Map<u8, Seq<char>>,
    before: Seq<Seq<u8>>,
    other: Seq<u8>,
    after: Seq<Seq<u8>>,
)
    requires
        decoding(other) == Some(MidiEvent::Other),
    ensures
        plan(keybinds, before + seq![other] + after) == plan(keybinds, before) + seq![
            StepView::Ignore,
        ] + plan(keybinds, after),
        calls(plan(keybinds, before + seq![other] + after)) == calls(
            plan(keybinds, before + after),
        ),
        notices(plan(keybinds, before + seq![other] + after)) == notices(
            plan(keybinds, before + after),
        ),
{
    lemma_one_step(StepView::Ignore);
    lemma_one_event_in_a_cycle(keybinds, before, other, after);
    assert(calls(plan(keybinds, before)) + Seq::<KeyActionView>::empty() + calls(
        plan(keybinds, after),
    ) =~= calls(plan(keybinds, before)) + calls(plan(keybinds, after)));
    assert(notices(plan(keybinds, before)) + Seq::<NoticeView>::empty() + notices(
        plan(keybinds, after),
    ) =~= notices(plan(keybinds, before)) + notices(plan(keybinds, after)));
}

/// The calls and notices of a single step.
proof fn lemma_one_step(step: StepView)
    ensures
        calls(seq![step]) == match step {
            StepView::Dispatch(action) => seq![action],
            _ => Seq::empty(),
        },
        notices(seq![step]) == match step {
            StepView::Notify(notice) => seq![notice],
            _ => Seq::empty(),
        },
{
    reveal_with_fuel(calls, 2);
    reveal_with_fuel(notices, 2);
}

/// The plan, calls and notices of a cycle, split around one of its events.
proof fn lemma_one_event_in_a_cycle(
    keybinds: Map<u8, Seq<char>>,
    before: Seq<Seq<u8>>,
    event: Seq<u8>,
    after: Seq<Seq<u8>>,
)
    ensures
        plan(keybinds, before + seq![event] + after) == plan(keybinds, before) + seq![
            route(keybinds, decoding(event)),
        ] + plan(keybinds, after),
        calls(plan(keybinds, before + seq![event] + after)) == calls(plan(keybinds, before))
            + calls(seq![route(keybinds, decoding(event))]) + calls(plan(keybinds, after)),
        notices(plan(keybinds, before + seq![event] + after)) == notices(plan(keybinds, before))
            + notices(seq![route(keybinds, decoding(event))]) + notices(plan(keybinds, after)),
        calls(plan(keybinds, before + after)) == calls(plan(keybinds, before)) + calls(
            plan(keybinds, after),
        ),
        notices(plan(keybinds, before + after)) == notices(plan(keybinds, before)) + notices(
            plan(keybinds, after),
        ),
{
    let one = seq![route(keybinds, decoding(event))];
    law_plan_follows_arrival_order(keybinds, before + seq![event], after);
    law_plan_follows_arrival_order(keybinds, before, seq![event]);
    law_plan_follows_arrival_order(keybinds, before, after);
    law_calls_and_notices_concatenate(plan(keybinds, before) + one, plan(keybinds, after));
    law_calls_and_notices_concatenate(plan(keybinds, before), one);
    law_calls_and_notices_concatenate(plan(keybinds, before), plan(keybinds, after));
}

} // verus!
