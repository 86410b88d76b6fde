//! The memories of all roles: one for each, opened once, written to, asked, and consolidated.

use crate::memory::{
    locate_memory, memory_location, recall_lines, render_first_recalled, MemorySettings,
    MemoryType, RecallRequest, Recalled, WriteRequest,
};
use crate::moment::{
    distance, elapsed_seconds, less_time_apart_is_nearer, span, spans_are_differences_of_time,
    time_distance, whole_seconds, whole_seconds_are_as_many_as_fit, Moment,
};
use crate::text::{opt_text, texts};
use vstd::prelude::*;

pub use crate::daydream::daydream;

verus! {

/// The weight of a match of words, in hundredths.
pub const FTS_WEIGHT: u32 = 35;

/// The weight of a match of embeddings, in hundredths.
pub const EMBEDDING_WEIGHT: u32 = 45;

/// The weight of how active a memory is, in hundredths.
pub const ACTR_WEIGHT: u32 = 20;

/// A role's memory: where it lies below the data directory, and its settings.
#[derive(Debug, PartialEq, Eq)]
pub struct NodeMemory {
    pub location: Vec<String>,
    pub settings: MemorySettings,
}

/// Whether the record at `i` comes before the record at `j`: it was made nearer to `time`, or as
/// near and stands earlier in the list.
pub open spec fn nearer(created: Seq<Moment>, time: Moment, i: int, j: int) -> bool {
    let di = distance(created[i], time);
    let dj = distance(created[j], time);
    di < dj || di == dj && i < j
}

/// `order` lists records from the nearest on, and leaves out only records that come after all
/// those it lists.
pub open spec fn nearest_first(created: Seq<Moment>, time: Moment, order: Seq<usize>) -> bool {
    &&& forall|k: int| 0 <= k < order.len() ==> #[trigger] order[k] < created.len()
    &&& forall|k: int, l: int|
        0 <= k < l < order.len() ==> nearer(
            created,
            time,
            #[trigger] order[k] as int,
            #[trigger] order[l] as int,
        )
    &&& forall|k: int, i: int|
        #![trigger order[k], created[i]]
        0 <= k < order.len() && 0 <= i < created.len() && !order.contains(i as usize) ==> nearer(
            created,
            time,
            order[k] as int,
            i,
        )
}

/// `order` with the record `i` put in at `pos`, and cut to `n` records.
spec fn put_in(order: Seq<usize>, pos: int, i: usize, n: int) -> Seq<usize> {
    let longer = order.insert(pos, i);
    if longer.len() > n {
        longer.drop_last()
    } else {
        longer
    }
}

/// Taking one more record into account keeps the list right.
proof fn lemma_put_in(
    created: Seq<Moment>,
    time: Moment,
    order: Seq<usize>,
    pos: int,
    n: int,
    i: usize,
)
    requires
        i < created.len(),
        0 <= pos <= order.len(),
        pos < n,
        order.len() <= n,
        order.len() < n ==> order.len() == i,
        nearest_first(created.take(i as int), time, order),
        order.len() == i ==> forall|j: int| 0 <= j < i ==> order.contains(#[trigger] (j as usize)),
        forall|k: int|
            0 <= k < pos ==> distance(created[#[trigger] order[k] as int], time) <= distance(
                created[i as int],
                time,
            ),
        forall|k: int|
            pos <= k < order.len() ==> distance(created[#[trigger] order[k] as int], time)
                > distance(created[i as int], time),
    ensures
        nearest_first(created.take(i + 1), time, put_in(order, pos, i, n)),
        order.len() < n ==> forall|j: int|
            0 <= j <= i ==> put_in(order, pos, i, n).contains(#[trigger] (j as usize)),
{
    let small = created.take(i as int);
    let large = created.take(i + 1);
    let longer = order.insert(pos, i);
    let cut = put_in(order, pos, i, n);
    assert forall|k: int, l: int| 0 <= k < l < longer.len() implies nearer(
        large,
        time,
        longer[k] as int,
        longer[l] as int,
    ) by {
        if k < pos {
            assert(longer[k] == order[k]);
        }
        if k > pos {
            assert(longer[k] == order[k - 1]);
        }
        if l < pos {
            assert(longer[l] == order[l]);
        }
        if l > pos {
            assert(longer[l] == order[l - 1]);
        }
    }
    assert forall|j: usize| order.contains(j) implies longer.contains(j) by {
        let k = choose|k: int| 0 <= k < order.len() && order[k] == j;
        assert(longer[if k < pos { k } else { k + 1 }] == j);
    }
    assert(longer[pos] == i);
    assert forall|k: int| 0 <= k < cut.len() implies #[trigger] cut[k] < large.len() by {
        assert(cut[k] == longer[k]);
        if k < pos {
            assert(longer[k] == order[k]);
        } else if k > pos {
            assert(longer[k] == order[k - 1]);
        }
    }
    assert forall|k: int, j: int|
        #![trigger cut[k], large[j]]
        0 <= k < cut.len() && 0 <= j < large.len() && !cut.contains(j as usize) implies nearer(
        large,
        time,
        cut[k] as int,
        j,
    ) by {
        assert(cut[k] == longer[k]);
        if longer.contains(j as usize) {
            let m = choose|m: int| 0 <= m < longer.len() && longer[m] == j as usize;
            if m < cut.len() {
                assert(cut[m] == j as usize);
            }
            assert(nearer(large, time, longer[k] as int, longer[m] as int));
        } else {
            assert(!order.contains(j as usize));
            assert(j != i);
            assert(small[j] == large[j]);
            if k < pos {
                assert(longer[k] == order[k]);
                assert(nearer(small, time, order[k] as int, j));
            } else if k > pos {
                assert(longer[k] == order[k - 1]);
                assert(nearer(small, time, order[k - 1] as int, j));
            } else {
                assert(order.len() == n);
                assert(nearer(small, time, order[pos] as int, j));
            }
        }
    }
    if order.len() < n {
        assert forall|j: int| 0 <= j <= i implies cut.contains(#[trigger] (j as usize)) by {
            if j < i {
                assert(order.contains(j as usize));
            }
        }
    }
}

impl NodeMemory {
    /// The memory of the role with this name.
    pub fn new(display_name: &str) -> (memory: NodeMemory)
        ensures
            texts(memory.location@) == memory_location(display_name@),
            memory.settings.weighs(FTS_WEIGHT, EMBEDDING_WEIGHT, ACTR_WEIGHT),
    {
        NodeMemory {
            location: locate_memory(display_name),
            settings: MemorySettings::new(FTS_WEIGHT, EMBEDDING_WEIGHT, ACTR_WEIGHT),
        }
    }

    /// What is to be written to remember a text.
    pub fn write(
        &self,
        summary: String,
        memory_type: MemoryType,
        importance: Option<u64>,
        namespace: Option<String>,
    ) -> (request: WriteRequest)
        ensures
            request == (WriteRequest { summary, memory_type, importance, namespace }),
    {
        WriteRequest { summary, memory_type, importance, namespace }
    }

    /// What is to be asked to recall up to `max_nodes` memories.
    pub fn recall(&self, max_nodes: usize, query: String, context: Option<Vec<String>>) -> (request:
        RecallRequest)
        ensures
            request == (RecallRequest { consolidate_days: None, query, limit: max_nodes, context }),
    {
        RecallRequest { consolidate_days: None, query, limit: max_nodes, context }
    }

    /// The lines for what was recalled: one for each memory, and none where the memory could not
    /// be asked.
    pub fn recalled(&self, outcome: &Option<Vec<Recalled>>) -> (lines: Vec<String>)
        ensures
            texts(lines@) == (match outcome {
                Some(recalled) => recall_lines(recalled@),
                None => Seq::empty(),
            }),
    {
        let n: usize = match outcome {
            Some(recalled) => recalled.len(),
            None => 0,
        };
        render_first_recalled(outcome, n)
    }

    /// The records made nearest to `time`: at most `n`, the nearest first, and those as near in
    /// the order of the list. `created` tells when each was made.
    pub fn recall_in_range(created: &Vec<Moment>, time: &Moment, n: usize) -> (order: Vec<usize>)
        ensures
            nearest_first(created@, *time, order@),
            order@.len() == if n < created@.len() {
                n as nat
            } else {
                created@.len()
            },
            created@.len() <= n ==> forall|j: int|
                0 <= j < created@.len() ==> order@.contains(#[trigger] (j as usize)),
    {
        let mut distances: Vec<i128> = Vec::new();
        let mut order: Vec<usize> = Vec::new();
        let mut i: usize = 0;
        while i < created.len()
            invariant
                i <= created@.len(),
                distances@.len() == i,
                forall|j: int|
                    0 <= j < i ==> #[trigger] distances@[j] == distance(created@[j], *time),
                order@.len() == if n < i { n } else { i },
                nearest_first(created@.take(i as int), *time, order@),
                order@.len() == i ==> forall|j: int|
                    0 <= j < i ==> order@.contains(#[trigger] (j as usize)),
            decreases created.len() - i,
        {
            let here: i128 = time_distance(&created[i], time);
            let mut pos: usize = order.len();
            while pos > 0 && distances[order[pos - 1]] > here
                invariant
                    pos <= order@.len(),
                    distances@.len() == i,
                    i < created@.len(),
                    forall|k: int| 0 <= k < order@.len() ==> #[trigger] order@[k] < i,
                    forall|k: int|
                        pos <= k < order@.len() ==> distances@[#[trigger] order@[k] as int] > here,
                decreases pos,
            {
                pos = pos - 1;
            }
            let ghost before = order@;
            proof {
                assert forall|k: int| 0 <= k < pos implies distances@[#[trigger] before[k] as int]
                    <= here by {
                    let small = created@.take(i as int);
                    if k < pos - 1 {
                        assert(nearer(small, *time, before[k] as int, before[pos - 1] as int));
                    }
                    assert(small[before[k] as int] == created@[before[k] as int]);
                    assert(small[before[pos - 1] as int] == created@[before[pos - 1] as int]);
                }
            }
            distances.push(here);
            if pos < n {
                order.insert(pos, i);
                if order.len() > n {
                    order.pop();
                }
                proof {
                    lemma_put_in(created@, *time, before, pos as int, n as int, i);
                    assert(order@ == put_in(before, pos as int, i, n as int));
                }
            }
            i = i + 1;
        }
        assert(created@.take(i as int) == created@);
        order
    }
}

/// Asking for fewer records gives the first of those that asking for more gives.
pub proof fn fewer_records_are_the_first_of_more(
    created: Seq<Moment>,
    time: Moment,
    fewer: Seq<usize>,
    more: Seq<usize>,
)
    requires
        nearest_first(created, time, fewer),
        nearest_first(created, time, more),
        fewer.len() <= more.len(),
    ensures
        fewer == more.take(fewer.len() as int),
{
    lemma_same_start(created, time, fewer, more, fewer.len());
}

proof fn lemma_same_start(
    created: Seq<Moment>,
    time: Moment,
    fewer: Seq<usize>,
    more: Seq<usize>,
    k: nat,
)
    requires
        nearest_first(created, time, fewer),
        nearest_first(created, time, more),
        k <= fewer.len() <= more.len(),
    ensures
        forall|j: int| 0 <= j < k ==> #[trigger] fewer[j] == more[j],
    decreases k,
{
    if k > 0 {
        let last = k - 1;
        lemma_same_start(created, time, fewer, more, last as nat);
        let a = fewer[last];
        let b = more[last];
        if a != b {
            assert(nearer(created, time, b as int, a as int)) by {
                if more.contains(a) {
                    let p = choose|p: int| 0 <= p < more.len() && more[p] == a;
                    if p < last {
                        assert(fewer[p] == more[p]);
                        assert(nearer(created, time, fewer[p] as int, fewer[last] as int));
                    }
                    assert(nearer(created, time, more[last] as int, more[p] as int));
                } else {
                    assert(created[a as int] == created[a as int]);
                    assert(!more.contains((a as int) as usize));
                }
            }
            assert(nearer(created, time, a as int, b as int)) by {
                if fewer.contains(b) {
                    let p = choose|p: int| 0 <= p < fewer.len() && fewer[p] == b;
                    if p < last {
                        assert(fewer[p] == more[p]);
                        assert(nearer(created, time, more[p] as int, more[last] as int));
                    }
                    assert(nearer(created, time, fewer[last] as int, fewer[p] as int));
                } else {
                    assert(created[b as int] == created[b as int]);
                    assert(!fewer.contains((b as int) as usize));
                }
            }
        }
    }
}

/// The names of the roles whose memories are open, each with the place of its memory among the
/// open ones.
#[derive(Debug)]
pub struct MemoryRegistry {
    names: Vec<String>,
}

/// Where a name stands among the open ones.
pub open spec fn slot_of(names: Seq<Seq<char>>, name: Seq<char>) -> Option<int> {
    if names.contains(name) {
        Some(names.index_of(name))
    } else {
        None
    }
}

/// The open names once `name` is among them.
pub open spec fn with_name(names: Seq<Seq<char>>, name: Seq<char>) -> Seq<Seq<char>> {
    if names.contains(name) {
        names
    } else {
        names.push(name)
    }
}

impl View for MemoryRegistry {
    type V = Seq<Seq<char>>;

    closed spec fn view(&self) -> Seq<Seq<char>> {
        texts(self.names@)
    }
}

impl MemoryRegistry {
    /// Every name has one place.
    #[verifier::type_invariant]
    pub open spec fn well_formed(self) -> bool {
        self@.no_duplicates()
    }

    /// No memory is open.
    pub fn new() -> (registry: MemoryRegistry)
        ensures
            registry@ == Seq::<Seq<char>>::empty(),
    {
        let names: Vec<String> = Vec::new();
        assert(texts(names@) == Seq::<Seq<char>>::empty());
        MemoryRegistry { names }
    }

    /// The place of a role's memory, if it is open.
    pub fn lookup(&self, display_name: &str) -> (slot: Option<usize>)
        ensures
            self@.no_duplicates(),
            slot_of(self@, display_name@) == (match slot {
                Some(i) => Some(i as int),
                None => None,
            }),
    {
        proof {
            use_type_invariant(self);
        }
        let wanted: String = display_name.to_string();
        let mut i: usize = 0;
        while i < self.names.len()
            invariant
                i <= self.names@.len(),
                wanted@ == display_name@,
                self@ == texts(self.names@),
                self@.no_duplicates(),
                forall|j: int| 0 <= j < i ==> #[trigger] self@[j] != display_name@,
            decreases self.names.len() - i,
        {
            assert(self@[i as int] == self.names@[i as int]@);
            if self.names[i] == wanted {
                assert(self@.contains(display_name@));
                return Some(i);
            }
            i = i + 1;
        }
        None
    }

    /// Takes a role's memory among the open ones, unless it is there, and gives its place.
    pub fn register(&mut self, display_name: &str) -> (slot: usize)
        ensures
            final(self)@ == with_name(old(self)@, display_name@),
            final(self)@.no_duplicates(),
            slot_of(final(self)@, display_name@) == Some(slot as int),
    {
        if let Some(slot) = self.lookup(display_name) {
            return slot;
        }
        proof {
            use_type_invariant(&*self);
        }
        let ghost before = self@;
        let slot: usize = self.names.len();
        let mut names: Vec<String> = Vec::new();
        assert(texts(names@) == Seq::<Seq<char>>::empty());
        std::mem::swap(&mut names, &mut self.names);
        names.push(display_name.to_string());
        assert(texts(names@) == before.push(display_name@));
        assert(texts(names@)[slot as int] == display_name@);
        self.names = names;
        slot
    }
}

/// Once open, a role's memory keeps its place whatever else is opened; and every role has one
/// memory at most.
pub proof fn open_memories_keep_their_places(
    names: Seq<Seq<char>>,
    opened: Seq<char>,
    name: Seq<char>,
)
    requires
        names.no_duplicates(),
    ensures
        with_name(names, opened).no_duplicates(),
        slot_of(with_name(names, opened), opened) is Some,
        slot_of(names, name) is Some ==> slot_of(with_name(names, opened), name) == slot_of(
            names,
            name,
        ),
        name != opened ==> slot_of(with_name(names, opened), name) == slot_of(names, name),
        with_name(with_name(names, opened), opened) == with_name(names, opened),
{
    let after = with_name(names, opened);
    assert(after.contains(opened)) by {
        if !names.contains(opened) {
            assert(after[names.len() as int] == opened);
        }
    }
    if names.contains(name) {
        let i = names.index_of(name);
        assert(after[i] == name);
        assert(after.contains(name));
    }
    if name != opened && !names.contains(name) && after.contains(name) {
        let i = choose|i: int| 0 <= i < after.len() && after[i] == name;
        assert(names[i] == name);
    }
}

/// A memory is consolidated when it is opened after more than this many seconds: a tenth of a
/// day.
pub const CONSOLIDATION_GAP: i64 = 8_640;

/// The seconds for which a memory is to be consolidated when it is opened at `now`: the time
/// since its latest record, where there is one and it lies more than a tenth of a day back.
pub open spec fn due_seconds(latest: Option<Moment>, now: Moment) -> Option<int> {
    match latest {
        Some(made) if whole_seconds(span(now, made)) > CONSOLIDATION_GAP => Some(
            whole_seconds(span(now, made)),
        ),
        _ => None,
    }
}

/// The seconds for which a memory is to be consolidated when it is opened at `now`.
pub fn consolidation_due(latest: Option<Moment>, now: &Moment) -> (secs: Option<i64>)
    ensures
        due_seconds(latest, *now) == (match secs {
            Some(s) => Some(s as int),
            None => None,
        }),
{
    match latest {
        Some(made) => {
            let elapsed: i64 = elapsed_seconds(now, &made);
            if elapsed > CONSOLIDATION_GAP {
                Some(elapsed)
            } else {
                None
            }
        },
        None => None,
    }
}

/// A text to be remembered by a role.
#[derive(Debug, PartialEq, Eq)]
pub struct WriteCall {
    pub display_name: String,
    pub request: WriteRequest,
}

/// A question to a role's memory.
#[derive(Debug, PartialEq, Eq)]
pub struct RecallCall {
    pub display_name: String,
    pub max_nodes: usize,
    pub query: String,
    pub context: Option<Vec<String>>,
}

/// A look into a role's memory: at the latest records, or at those made nearest to a time.
#[derive(Debug, PartialEq, Eq)]
pub enum RangeCall {
    Recent { display_name: String, max_nodes: usize, namespace: Option<String> },
    Nearest { display_name: String, time: Moment, max_nodes: usize, namespace: Option<String> },
}

/// A consolidation of a role's memory by some days, held as the bits of a double.
#[derive(Debug, PartialEq, Eq)]
pub struct ConsolidateCall {
    pub display_name: String,
    pub days: u64,
}

/// A text to be remembered by a role, in specifications.
pub struct WriteCallView {
    pub display_name: Seq<char>,
    pub summary: Seq<char>,
    pub memory_type: MemoryType,
    pub importance: Option<u64>,
    pub namespace: Option<Seq<char>>,
}

impl View for WriteCall {
    type V = WriteCallView;

    open spec fn view(&self) -> WriteCallView {
        WriteCallView {
            display_name: self.display_name@,
            summary: self.request.summary@,
            memory_type: self.request.memory_type,
            importance: self.request.importance,
            namespace: opt_text(self.request.namespace),
        }
    }
}

/// A question to a role's memory, in specifications.
pub struct RecallCallView {
    pub display_name: Seq<char>,
    pub max_nodes: usize,
    pub query: Seq<char>,
    pub context: Option<Seq<Seq<char>>>,
}

impl View for RecallCall {
    type V = RecallCallView;

    open spec fn view(&self) -> RecallCallView {
        RecallCallView {
            display_name: self.display_name@,
            max_nodes: self.max_nodes,
            query: self.query@,
            context: match self.context {
                Some(context) => Some(texts(context@)),
                None => None,
            },
        }
    }
}

/// A look into a role's memory, in specifications.
pub enum RangeCallView {
    Recent { display_name: Seq<char>, max_nodes: usize, namespace: Option<Seq<char>> },
    Nearest {
        display_name: Seq<char>,
        time: Moment,
        max_nodes: usize,
        namespace: Option<Seq<char>>,
    },
}

impl View for RangeCall {
    type V = RangeCallView;

    open spec fn view(&self) -> RangeCallView {
        match self {
            RangeCall::Recent { display_name, max_nodes, namespace } => RangeCallView::Recent {
                display_name: display_name@,
                max_nodes: *max_nodes,
                namespace: opt_text(*namespace),
            },
            RangeCall::Nearest { display_name, time, max_nodes, namespace } =>
                RangeCallView::Nearest {
                display_name: display_name@,
                time: *time,
                max_nodes: *max_nodes,
                namespace: opt_text(*namespace),
            },
        }
    }
}

/// A consolidation of a role's memory, in specifications.
pub struct ConsolidateCallView {
    pub display_name: Seq<char>,
    pub days: u64,
}

impl View for ConsolidateCall {
    type V = ConsolidateCallView;

    open spec fn view(&self) -> ConsolidateCallView {
        ConsolidateCallView { display_name: self.display_name@, days: self.days }
    }
}

/// Asks a role's memory.
pub fn recall_vector_memory(
    display_name: &str,
    max_nodes: usize,
    query: String,
    context: Option<Vec<String>>,
) -> (call: RecallCall)
    ensures
        call.display_name@ == display_name@,
        call.max_nodes == max_nodes,
        call.query == query,
        call.context == context,
{
    RecallCall { display_name: display_name.to_string(), max_nodes, query, context }
}

/// Has a role remember an event.
pub fn write_vector_memory(
    display_name: &str,
    summary: String,
    importance: Option<u64>,
    namespace: Option<String>,
) -> (call: WriteCall)
    ensures
        call.display_name@ == display_name@,
        call.request == (WriteRequest {
            summary,
            memory_type: MemoryType::Episodic,
            importance,
            namespace,
        }),
{
    write_memory_with_type(display_name, summary, MemoryType::Episodic, importance, namespace)
}

/// Has a role remember a text of some kind.
pub fn write_memory_with_type(
    display_name: &str,
    summary: String,
    memory_type: MemoryType,
    importance: Option<u64>,
    namespace: Option<String>,
) -> (call: WriteCall)
    ensures
        call.display_name@ == display_name@,
        call.request == (WriteRequest { summary, memory_type, importance, namespace }),
{
    WriteCall {
        display_name: display_name.to_string(),
        request: WriteRequest { summary, memory_type, importance, namespace },
    }
}

/// Consolidates a role's memory.
pub fn consolidate_memory(display_name: &str, days: u64) -> (call: ConsolidateCall)
    ensures
        call.display_name@ == display_name@,
        call.days == days,
{
    ConsolidateCall { display_name: display_name.to_string(), days }
}

/// Looks at the records made nearest to `time`, or at the latest where no time is given.
pub fn recall_node_memory_in_range(
    display_name: &str,
    time: Option<Moment>,
    max_nodes: usize,
    namespace: Option<String>,
) -> (call: RangeCall)
    ensures
        call@ == (match time {
            Some(t) => RangeCallView::Nearest {
                display_name: display_name@,
                time: t,
                max_nodes,
                namespace: opt_text(namespace),
            },
            None => RangeCallView::Recent {
                display_name: display_name@,
                max_nodes,
                namespace: opt_text(namespace),
            },
        }),
{
    let display_name: String = display_name.to_string();
    match time {
        Some(time) => RangeCall::Nearest { display_name, time, max_nodes, namespace },
        None => RangeCall::Recent { display_name, max_nodes, namespace },
    }
}

/// Of two listed records the first lies no farther from the time than the second, and stands
/// before it in the list where both lie as far. A record that is left out lies no nearer than
/// any that is listed, and stands after it where both lie as far. None is listed twice.
pub proof fn nearer_records_come_first(created: Seq<Moment>, time: Moment, order: Seq<usize>)
    requires
        nearest_first(created, time, order),
    ensures
        forall|k: int| 0 <= k < order.len() ==> #[trigger] order[k] < created.len(),
        order.no_duplicates(),
        forall|k: int, l: int|
            0 <= k < l < order.len() ==> {
                let to_first = distance(created[#[trigger] order[k] as int], time);
                let to_second = distance(created[#[trigger] order[l] as int], time);
                to_first <= to_second && (to_first == to_second ==> order[k] < order[l])
            },
        forall|k: int, i: int|
            #![trigger order[k], created[i]]
            0 <= k < order.len() && 0 <= i < created.len() && !order.contains(i as usize) ==> {
                let to_listed = distance(created[order[k] as int], time);
                let to_other = distance(created[i], time);
                to_listed <= to_other && (to_listed == to_other ==> order[k] < i)
            },
{
    assert forall|k: int, l: int| 0 <= k < l < order.len() implies order[k] != order[l] by {
        assert(nearer(created, time, order[k] as int, order[l] as int));
    }
}

/// Outside leap seconds, a record that was made fewer nanoseconds before or after the time than a
/// listed record is listed too, and before that one.
pub proof fn no_nearer_record_is_passed_over(
    created: Seq<Moment>,
    time: Moment,
    order: Seq<usize>,
    k: int,
    i: usize,
)
    requires
        nearest_first(created, time, order),
        0 <= k < order.len(),
        i < created.len(),
        time.spec_nanos() < 1_000_000_000,
        created[i as int].spec_nanos() < 1_000_000_000,
        created[order[k] as int].spec_nanos() < 1_000_000_000,
        ({
            let here = time.spec_secs() * 1_000_000_000 + time.spec_nanos();
            let listed = created[order[k] as int].spec_secs() * 1_000_000_000
                + created[order[k] as int].spec_nanos() - here;
            let other = created[i as int].spec_secs() * 1_000_000_000
                + created[i as int].spec_nanos() - here;
            other * other < listed * listed
        }),
    ensures
        exists|l: int| 0 <= l < k && #[trigger] order[l] == i,
{
    let here = time.spec_secs() * 1_000_000_000 + time.spec_nanos();
    let listed = created[order[k] as int].spec_secs() * 1_000_000_000
        + created[order[k] as int].spec_nanos() - here;
    let other = created[i as int].spec_secs() * 1_000_000_000 + created[i as int].spec_nanos()
        - here;
    less_time_apart_is_nearer(created[i as int], created[order[k] as int], time);
    let far = if listed < 0 {
        -listed
    } else {
        listed
    };
    let near = if other < 0 {
        -other
    } else {
        other
    };
    assert(near < far) by (nonlinear_arith)
        requires
            other * other < listed * listed,
            near == other || near == -other,
            far == listed || far == -listed,
            near >= 0,
            far >= 0,
    ;
    nearer_records_come_first(created, time, order);
    assert(created[i as int] == created[i as int]);
    assert(order.contains((i as int) as usize));
    let l = choose|l: int| 0 <= l < order.len() && order[l] == i;
    if l >= k {
        assert(l > k);
        assert(nearer(created, time, order[k] as int, order[l] as int));
    }
}

/// A name has the place at which it stands among the open ones, and no place where it is not
/// among them. One that is opened comes after all others, which stay as they are.
pub proof fn names_have_the_places_where_they_stand(
    names: Seq<Seq<char>>,
    name: Seq<char>,
    place: int,
)
    requires
        names.no_duplicates(),
    ensures
        slot_of(names, name) == Some(place) <==> 0 <= place < names.len() && names[place] == name,
        slot_of(names, name) is None <==> !names.contains(name),
        !names.contains(name) ==> with_name(names, name) == names + seq![name],
        names.contains(name) ==> with_name(names, name) == names,
{
    if names.contains(name) {
        let i = names.index_of(name);
        assert(0 <= i < names.len() && names[i] == name);
    }
    if 0 <= place < names.len() && names[place] == name {
        assert(names.contains(name));
    }
}

/// A memory with a latest record settles exactly where at least 8641 seconds have gone by since,
/// however many they are, and for as many whole seconds. One without any record does not.
pub proof fn idle_time_is_settled_in_full(made: Moment, now: Moment)
    ensures
        due_seconds(None, now) is None,
        due_seconds(Some(made), now) is Some <==> span(now, made) >= 8_641 * 1_000_000_000,
        due_seconds(Some(made), now) matches Some(secs) ==> secs * 1_000_000_000 <= span(now, made)
            < (secs + 1) * 1_000_000_000,
{
    whole_seconds_are_as_many_as_fit(span(now, made));
}

/// Outside leap seconds, a memory that is to settle at some time is to settle at any later time,
/// for at least as long: where the times differ by whole seconds, for that many seconds longer.
pub proof fn longer_idle_time_is_settled_for_longer(made: Moment, now: Moment, later: Moment)
    requires
        made.spec_nanos() < 1_000_000_000,
        now.spec_nanos() < 1_000_000_000,
        later.spec_nanos() < 1_000_000_000,
        now.spec_secs() * 1_000_000_000 + now.spec_nanos() <= later.spec_secs() * 1_000_000_000
            + later.spec_nanos(),
    ensures
        due_seconds(Some(made), now) matches Some(due) ==> {
            &&& due_seconds(Some(made), later) matches Some(due_later) && due_later >= due
            &&& now.spec_nanos() == later.spec_nanos() ==> due_seconds(Some(made), later) == Some(
                due + later.spec_secs() - now.spec_secs(),
            )
        },
{
    idle_time_is_settled_in_full(made, now);
    idle_time_is_settled_in_full(made, later);
    spans_are_differences_of_time(now, made);
    spans_are_differences_of_time(later, made);
}

/// A call that is to write shows whose memory it is, the text, its kind, its importance and its
/// namespace.
pub proof fn writes_show_all_they_hold(call: WriteCall)
    ensures
        call@.display_name == call.display_name@,
        call@.summary == call.request.summary@,
        call@.memory_type == call.request.memory_type,
        call@.importance == call.request.importance,
        match call.request.namespace {
            Some(namespace) => call@.namespace == Some(namespace@),
            None => call@.namespace is None,
        },
{
}

/// A call that is to recall shows whose memory it is, how many memories are wanted, the question
/// and its context.
pub proof fn questions_show_all_they_hold(call: RecallCall)
    ensures
        call@.display_name == call.display_name@,
        call@.max_nodes == call.max_nodes,
        call@.query == call.query@,
        match call.context {
            Some(context) => call@.context matches Some(shown) && shown.len() == context@.len()
                && forall|i: int| 0 <= i < shown.len() ==> #[trigger] shown[i] == context@[i]@,
            None => call@.context is None,
        },
{
}

/// A look into a memory shows whose memory it is, the time where there is one, how many records
/// are wanted and their namespace.
pub proof fn looks_show_all_they_hold(call: RangeCall)
    ensures
        match call {
            RangeCall::Recent { display_name, max_nodes, namespace } => {
                &&& call@ matches RangeCallView::Recent {
                    display_name: shown_name,
                    max_nodes: shown_nodes,
                    namespace: shown_namespace,
                }
                &&& shown_name == display_name@
                &&& shown_nodes == max_nodes
                &&& namespace matches Some(text) ==> shown_namespace == Some(text@)
                &&& namespace is None ==> shown_namespace is None
            },
            RangeCall::Nearest { display_name, time, max_nodes, namespace } => {
                &&& call@ matches RangeCallView::Nearest {
                    display_name: shown_name,
                    time: shown_time,
                    max_nodes: shown_nodes,
                    namespace: shown_namespace,
                }
                &&& shown_name == display_name@
                &&& shown_time == time
                &&& shown_nodes == max_nodes
                &&& namespace matches Some(text) ==> shown_namespace == Some(text@)
                &&& namespace is None ==> shown_namespace is None
            },
        },
{
}

} // verus!
