//! Opening a role's memory: once for every role, and settled when it has lain idle.
//!
//! Creating, looking into and consolidating a memory is done by the caller. An [`Opening`] says
//! what to do next, is told how that went, and goes on from there.

use crate::memory::memory_location;
use crate::moment::{span, Moment};
use crate::text::texts;
use crate::vector_memory::{
    consolidation_due, due_seconds, idle_time_is_settled_in_full,
    names_have_the_places_where_they_stand, open_memories_keep_their_places, slot_of, with_name,
    MemoryRegistry, NodeMemory, ACTR_WEIGHT, EMBEDDING_WEIGHT, FTS_WEIGHT,
};
use vstd::prelude::*;

verus! {

/// How many of the latest records are looked at when a memory is created.
pub const LATEST_RECORDS: usize = 1;

/// What an opening waits for.
#[derive(Clone, Copy, Debug, PartialEq, Eq, Structural)]
pub enum OpeningStage {
    /// The memory being created.
    Creating,
    /// The memory's latest record.
    Looking,
    /// The memory being consolidated.
    Consolidating,
    /// Nothing: the memory is open.
    Over,
}

/// What an opening wants done.
#[derive(Debug, PartialEq, Eq)]
pub enum OpeningAction {
    /// Create the memory.
    Create(NodeMemory),
    /// Keep the created memory at this place among the open ones, and look at its latest records
    /// in the default namespace.
    Look { slot: usize, max_nodes: usize },
    /// Consolidate the memory for this many seconds.
    Consolidate { slot: usize, secs: i64 },
    /// Use the memory at this place.
    Ready { slot: usize },
}

/// How it went what an opening wanted done.
#[derive(Debug, PartialEq, Eq)]
pub enum OpeningEvent {
    /// The memory was created.
    Created,
    /// When the memory's latest record was made, if it has one, and the time now.
    Looked { latest: Option<Moment>, now: Moment },
    /// The memory was consolidated, as far as that went.
    Consolidated,
}

/// A role's memory being opened.
#[derive(Debug, PartialEq, Eq)]
pub struct Opening {
    display_name: String,
    slot: usize,
    stage: OpeningStage,
}

/// A role's memory being opened, in specifications.
pub struct OpeningView {
    pub display_name: Seq<char>,
    pub slot: int,
    pub stage: OpeningStage,
}

impl View for Opening {
    type V = OpeningView;

    closed spec fn view(&self) -> OpeningView {
        OpeningView {
            display_name: self.display_name@,
            slot: self.slot as int,
            stage: self.stage,
        }
    }
}

impl OpeningView {
    /// Once the memory is created, it has its place among the open ones.
    pub open spec fn well_formed(self, names: Seq<Seq<char>>) -> bool {
        self.stage != OpeningStage::Creating ==> slot_of(names, self.display_name) == Some(
            self.slot,
        )
    }

    /// Whether the event is an answer to what the opening waits for.
    pub open spec fn expects(self, event: OpeningEvent) -> bool {
        match self.stage {
            OpeningStage::Creating => event is Created,
            OpeningStage::Looking => event is Looked,
            OpeningStage::Consolidating => event is Consolidated,
            OpeningStage::Over => false,
        }
    }

    /// The names of the open memories after an event.
    pub open spec fn names_after(self, names: Seq<Seq<char>>, event: OpeningEvent) -> Seq<
        Seq<char>,
    > {
        if event is Created {
            with_name(names, self.display_name)
        } else {
            names
        }
    }

    /// How the opening goes on after an event.
    pub open spec fn next(self, names: Seq<Seq<char>>, event: OpeningEvent) -> OpeningView {
        match event {
            OpeningEvent::Created => OpeningView {
                slot: slot_of(with_name(names, self.display_name), self.display_name).unwrap(),
                stage: OpeningStage::Looking,
                ..self
            },
            OpeningEvent::Looked { latest, now } => OpeningView {
                stage: if due_seconds(latest, now) is Some {
                    OpeningStage::Consolidating
                } else {
                    OpeningStage::Over
                },
                ..self
            },
            OpeningEvent::Consolidated => OpeningView { stage: OpeningStage::Over, ..self },
        }
    }
}

/// Whether `action` is what is wanted after the event that led to `opening`.
pub open spec fn wanted(opening: OpeningView, event: OpeningEvent, action: OpeningAction) -> bool {
    match event {
        OpeningEvent::Created => action matches OpeningAction::Look { slot, max_nodes } && slot
            == opening.slot && max_nodes == LATEST_RECORDS,
        OpeningEvent::Looked { latest, now } => match due_seconds(latest, now) {
            Some(due) => action matches OpeningAction::Consolidate { slot, secs } && slot
                == opening.slot && secs == due,
            None => action matches OpeningAction::Ready { slot } && slot == opening.slot,
        },
        OpeningEvent::Consolidated => action matches OpeningAction::Ready { slot } && slot
            == opening.slot,
    }
}

/// Begins to open a role's memory, and says what is wanted first: an open memory is used as it
/// is, and one that is not open is created.
pub fn get_or_create_mem(registry: &MemoryRegistry, display_name: &str) -> (begin: (
    Opening,
    OpeningAction,
))
    ensures
        registry@.no_duplicates(),
        begin.0@.display_name == display_name@,
        begin.0@.well_formed(registry@),
        match slot_of(registry@, display_name@) {
            Some(slot) => {
                &&& begin.0@.stage == OpeningStage::Over
                &&& begin.1 matches OpeningAction::Ready { slot: s } && s == slot
            },
            None => {
                &&& begin.0@.stage == OpeningStage::Creating
                &&& begin.1 matches OpeningAction::Create(memory) && texts(memory.location@)
                    == memory_location(display_name@) && memory.settings.weighs(
                    FTS_WEIGHT,
                    EMBEDDING_WEIGHT,
                    ACTR_WEIGHT,
                )
            },
        },
{
    match registry.lookup(display_name) {
        Some(slot) => (
            Opening { display_name: display_name.to_string(), slot, stage: OpeningStage::Over },
            OpeningAction::Ready { slot },
        ),
        None => (
            Opening {
                display_name: display_name.to_string(),
                slot: 0,
                stage: OpeningStage::Creating,
            },
            OpeningAction::Create(NodeMemory::new(display_name)),
        ),
    }
}

impl Opening {
    /// What the opening waits for.
    pub fn stage(&self) -> (stage: OpeningStage)
        ensures
            stage == self@.stage,
    {
        self.stage
    }

    /// Takes note of an event, goes on, and says what is wanted then.
    pub fn step(&mut self, registry: &mut MemoryRegistry, event: OpeningEvent) -> (action:
        OpeningAction)
        requires
            old(self)@.well_formed(old(registry)@),
            old(self)@.expects(event),
        ensures
            final(registry)@ == old(self)@.names_after(old(registry)@, event),
            final(registry)@.no_duplicates(),
            final(self)@ == old(self)@.next(old(registry)@, event),
            final(self)@.well_formed(final(registry)@),
            wanted(final(self)@, event, action),
    {
        proof {
            use_type_invariant(&*registry);
        }
        match event {
            OpeningEvent::Created => {
                self.slot = registry.register(self.display_name.as_str());
                self.stage = OpeningStage::Looking;
                OpeningAction::Look { slot: self.slot, max_nodes: LATEST_RECORDS }
            },
            OpeningEvent::Looked { latest, now } => match consolidation_due(latest, &now) {
                Some(secs) => {
                    self.stage = OpeningStage::Consolidating;
                    OpeningAction::Consolidate { slot: self.slot, secs }
                },
                None => {
                    self.stage = OpeningStage::Over;
                    OpeningAction::Ready { slot: self.slot }
                },
            },
            OpeningEvent::Consolidated => {
                self.stage = OpeningStage::Over;
                OpeningAction::Ready { slot: self.slot }
            },
        }
    }
}

impl OpeningView {
    /// The most events that can still come.
    pub open spec fn events_left(self) -> nat {
        match self.stage {
            OpeningStage::Creating => 3,
            OpeningStage::Looking => 2,
            OpeningStage::Consolidating => 1,
            OpeningStage::Over => 0,
        }
    }
}

/// Every event brings an opening nearer to its end. After it the role's memory has its place
/// among the open ones, where opening it once more finds it, and every memory that was open
/// before has kept its own.
pub proof fn every_event_brings_an_opening_nearer_to_its_end(
    opening: OpeningView,
    names: Seq<Seq<char>>,
    event: OpeningEvent,
    other: Seq<char>,
)
    requires
        names.no_duplicates(),
        opening.well_formed(names),
        opening.expects(event),
    ensures
        opening.next(names, event).events_left() < opening.events_left(),
        opening.names_after(names, event).no_duplicates(),
        slot_of(opening.names_after(names, event), opening.display_name) == Some(
            opening.next(names, event).slot,
        ),
        slot_of(names, other) is Some ==> slot_of(opening.names_after(names, event), other)
            == slot_of(names, other),
{
    open_memories_keep_their_places(names, opening.display_name, other);
}

/// A memory that is created takes the first free place, and its latest record is looked at
/// there.
pub proof fn a_created_memory_comes_after_all_others(
    opening: OpeningView,
    names: Seq<Seq<char>>,
    action: OpeningAction,
)
    requires
        opening.stage == OpeningStage::Creating,
        names.no_duplicates(),
        !names.contains(opening.display_name),
        wanted(opening.next(names, OpeningEvent::Created), OpeningEvent::Created, action),
    ensures
        opening.expects(OpeningEvent::Created),
        opening.names_after(names, OpeningEvent::Created) == names + seq![opening.display_name],
        action matches OpeningAction::Look { slot, max_nodes } && slot == names.len() && max_nodes
            == 1,
        opening.next(names, OpeningEvent::Created).display_name == opening.display_name,
        opening.next(names, OpeningEvent::Created).slot == names.len(),
        opening.next(names, OpeningEvent::Created).stage == OpeningStage::Looking,
{
    let after = names + seq![opening.display_name];
    assert(after == with_name(names, opening.display_name));
    open_memories_keep_their_places(names, opening.display_name, opening.display_name);
    assert(after[names.len() as int] == opening.display_name);
    names_have_the_places_where_they_stand(after, opening.display_name, names.len() as int);
}

/// Once its latest record was looked at, a memory settles first where at least 8641 seconds have
/// gone by since, for as many whole seconds as have, and is used at once otherwise.
pub proof fn a_memory_settles_for_as_long_as_it_lay_idle(
    opening: OpeningView,
    names: Seq<Seq<char>>,
    latest: Option<Moment>,
    now: Moment,
    action: OpeningAction,
)
    requires
        opening.stage == OpeningStage::Looking,
        wanted(
            opening.next(names, (OpeningEvent::Looked { latest, now })),
            OpeningEvent::Looked { latest, now },
            action,
        ),
    ensures
        opening.expects(OpeningEvent::Looked { latest, now }),
        opening.names_after(names, (OpeningEvent::Looked { latest, now })) == names,
        ({
            let after = opening.next(names, (OpeningEvent::Looked { latest, now }));
            &&& after.display_name == opening.display_name
            &&& after.slot == opening.slot
            &&& if latest is Some && span(now, latest.unwrap()) >= 8_641 * 1_000_000_000 {
                &&& after.stage == OpeningStage::Consolidating
                &&& action matches OpeningAction::Consolidate { slot, secs } && slot
                    == opening.slot && secs * 1_000_000_000 <= span(now, latest.unwrap()) < (secs
                    + 1) * 1_000_000_000
            } else {
                &&& after.stage == OpeningStage::Over
                &&& action matches OpeningAction::Ready { slot } && slot == opening.slot
            }
        }),
{
    if let Some(made) = latest {
        idle_time_is_settled_in_full(made, now);
    }
}

/// A memory that has settled is used at its place.
pub proof fn a_settled_memory_is_used(
    opening: OpeningView,
    names: Seq<Seq<char>>,
    action: OpeningAction,
)
    requires
        opening.stage == OpeningStage::Consolidating,
        wanted(
            opening.next(names, OpeningEvent::Consolidated),
            OpeningEvent::Consolidated,
            action,
        ),
    ensures
        opening.expects(OpeningEvent::Consolidated),
        opening.names_after(names, OpeningEvent::Consolidated) == names,
        opening.next(names, OpeningEvent::Consolidated).stage == OpeningStage::Over,
        action matches OpeningAction::Ready { slot } && slot == opening.slot,
{
}

} // verus!
