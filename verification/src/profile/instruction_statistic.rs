//! How the steps of a run and their memory accesses spread over the opcode
//! classes.

use vstd::prelude::*;
use crate::runtime::check_all_in_range;
use crate::runtime::in_range;
use crate::runtime::lemma_memory_events_are_of_steps;
use crate::runtime::memory_event_of_step;
use crate::runtime::memory_events;
use crate::specs::etable::EventTable;
use crate::specs::etable::EventTableEntry;
use crate::specs::itable::OpcodeClass;
use crate::specs::itable::OPCODE_CLASS_COUNT;
use crate::specs::mtable::count_reads;
use crate::specs::mtable::count_writes;
use crate::specs::mtable::lemma_counts_within_len;
use crate::specs::mtable::AccessType;
use crate::specs::mtable::MemoryTableEntry;

verus! {

/// What is counted of a step.
#[derive(Clone, Copy, Debug, PartialEq, Eq, Structural, Hash)]
pub enum Measure {
    /// The step itself.
    Steps,
    /// Its memory accesses.
    Accesses,
    /// Its writes.
    Writes,
    /// Its reads.
    Reads,
}

/// What one step counts for.
#[verifier::opaque]
pub open spec fn measure_of(measure: Measure, entry: EventTableEntry) -> nat {
    match measure {
        Measure::Steps => 1,
        Measure::Accesses => memory_events(entry).len(),
        Measure::Writes => count_writes(memory_events(entry)),
        Measure::Reads => count_reads(memory_events(entry)),
    }
}

/// What the steps of a class among the first `i` steps count for; with no
/// class given, the steps of all classes.
pub open spec fn tally(
    events: Seq<EventTableEntry>,
    class: Option<OpcodeClass>,
    measure: Measure,
    i: int,
) -> nat
    decreases i,
{
    if i <= 0 {
        0
    } else {
        let entry = events[i - 1];
        tally(events, class, measure, i - 1) + if class is None || class == Some(
            entry.inst.opcode.spec_class(),
        ) {
            measure_of(measure, entry)
        } else {
            0
        }
    }
}

/// The figures of one opcode class.
#[derive(Clone, Copy, Debug, PartialEq, Eq, Structural, Hash)]
pub struct Summary {
    /// How many steps of the class were executed.
    pub counter: usize,
    /// How many memory accesses they made.
    pub mentries: usize,
    /// How many memory accesses the steps of all classes made.
    pub total_mentries: usize,
    /// How many of the accesses of the class were writes.
    pub write_counter: usize,
    /// How many of the accesses of the class were reads.
    pub read_counter: usize,
}

/// The figures of a class for a run.
pub open spec fn summary_of(events: Seq<EventTableEntry>, class: OpcodeClass) -> Summary {
    let n = events.len() as int;
    Summary {
        counter: tally(events, Some(class), Measure::Steps, n) as usize,
        mentries: tally(events, Some(class), Measure::Accesses, n) as usize,
        total_mentries: tally(events, None, Measure::Accesses, n) as usize,
        write_counter: tally(events, Some(class), Measure::Writes, n) as usize,
        read_counter: tally(events, Some(class), Measure::Reads, n) as usize,
    }
}

/// The steps of a class make no more accesses, writes or reads than the
/// steps of all classes make accesses, and there are no more of them than
/// steps.
pub proof fn lemma_tally_within_total(
    events: Seq<EventTableEntry>,
    class: Option<OpcodeClass>,
    measure: Measure,
    i: int,
)
    requires
        0 <= i <= events.len(),
    ensures
        measure != Measure::Steps ==> tally(events, class, measure, i) <= tally(
            events,
            None,
            Measure::Accesses,
            i,
        ),
        measure == Measure::Steps ==> tally(events, class, measure, i) <= i,
    decreases i,
{
    reveal(measure_of);
    if i > 0 {
        lemma_tally_within_total(events, class, measure, i - 1);
        lemma_counts_within_len(memory_events(events[i - 1]));
    }
}

/// A tally never falls from step to step.
pub proof fn lemma_tally_grows(
    events: Seq<EventTableEntry>,
    class: Option<OpcodeClass>,
    measure: Measure,
    i: int,
    j: int,
)
    requires
        0 <= i <= j <= events.len(),
    ensures
        tally(events, class, measure, i) <= tally(events, class, measure, j),
    decreases j - i,
{
    if i < j {
        lemma_tally_grows(events, class, measure, i, j - 1);
    }
}

/// The accesses of steps are their writes and their reads: for every class
/// the two counts make up the count of its accesses.
pub proof fn lemma_writes_and_reads_are_all_accesses(
    events: Seq<EventTableEntry>,
    class: Option<OpcodeClass>,
    i: int,
)
    requires
        0 <= i <= events.len(),
    ensures
        tally(events, class, Measure::Writes, i) + tally(events, class, Measure::Reads, i) == tally(
            events,
            class,
            Measure::Accesses,
            i,
        ),
    decreases i,
{
    reveal(measure_of);
    if i > 0 {
        lemma_writes_and_reads_are_all_accesses(events, class, i - 1);
        lemma_counts_are_all(memory_events(events[i - 1]));
        assert forall|j: int| 0 <= j < memory_events(events[i - 1]).len() implies (
        #[trigger] memory_events(events[i - 1])[j]).atype != AccessType::Init by {
            lemma_memory_events_are_of_steps(events[i - 1], j);
        }
    }
}

/// Among accesses without initial values, the writes and the reads are all.
proof fn lemma_counts_are_all(ops: Seq<MemoryTableEntry>)
    ensures
        (forall|j: int| 0 <= j < ops.len() ==> (#[trigger] ops[j]).atype != AccessType::Init)
            ==> count_reads(ops) + count_writes(ops) == ops.len(),
    decreases ops.len(),
{
    if ops.len() > 0 {
        lemma_counts_are_all(ops.drop_last());
        if forall|j: int| 0 <= j < ops.len() ==> (#[trigger] ops[j]).atype != AccessType::Init {
            assert forall|j: int| 0 <= j < ops.drop_last().len() implies (
            #[trigger] ops.drop_last()[j]).atype != AccessType::Init by {
                assert(ops.drop_last()[j] == ops[j]);
            }
            assert(ops.last() == ops[ops.len() - 1]);
        }
    }
}

/// Whether `counts` holds, for every class at its position, what the steps
/// of the class among the first `i` steps count for.
#[verifier::opaque]
pub open spec fn tallies(
    counts: Seq<usize>,
    events: Seq<EventTableEntry>,
    measure: Measure,
    i: int,
) -> bool {
    &&& counts.len() == OPCODE_CLASS_COUNT
    &&& forall|class: OpcodeClass|
        counts[class.spec_index() as int] == #[trigger] tally(events, Some(class), measure, i)
}

/// What tallies hold for a class.
proof fn lemma_tallies_at(
    counts: Seq<usize>,
    events: Seq<EventTableEntry>,
    measure: Measure,
    i: int,
    class: OpcodeClass,
)
    requires
        tallies(counts, events, measure, i),
    ensures
        counts.len() == OPCODE_CLASS_COUNT,
        counts[class.spec_index() as int] == tally(events, Some(class), measure, i),
{
    reveal(tallies);
}

/// Counts that are all zero are the tallies of no steps.
proof fn lemma_tallies_of_nothing(counts: Seq<usize>, events: Seq<EventTableEntry>, measure: Measure)
    requires
        counts.len() == OPCODE_CLASS_COUNT,
        forall|j: int| 0 <= j < counts.len() ==> counts[j] == 0,
    ensures
        tallies(counts, events, measure, 0),
{
    reveal(tallies);
}

/// Adding what step `i` counts for at the position of its class takes the
/// tallies of the first `i` steps to those of the first `i + 1`.
proof fn lemma_tallies_step(
    before: Seq<usize>,
    after: Seq<usize>,
    events: Seq<EventTableEntry>,
    measure: Measure,
    i: int,
)
    requires
        0 <= i < events.len(),
        tallies(before, events, measure, i),
        after == before.update(
            events[i].inst.opcode.spec_class().spec_index() as int,
            (before[events[i].inst.opcode.spec_class().spec_index() as int] + measure_of(
                measure,
                events[i],
            )) as usize,
        ),
        before[events[i].inst.opcode.spec_class().spec_index() as int] + measure_of(
            measure,
            events[i],
        ) <= usize::MAX,
    ensures
        tallies(after, events, measure, i + 1),
{
    reveal(tallies);
    let class = events[i].inst.opcode.spec_class();
    assert forall|other: OpcodeClass|
        after[other.spec_index() as int] == #[trigger] tally(events, Some(other), measure, i + 1) by {
        let earlier = tally(events, Some(other), measure, i);
        lemma_index_injective(other, class);
    }
}

/// Different classes have different positions.
pub proof fn lemma_index_injective(a: OpcodeClass, b: OpcodeClass)
    ensures
        a.spec_index() == b.spec_index() <==> a == b,
{
}

pub trait InstructionStatistic {
    /// The steps that are profiled.
    spec fn steps(&self) -> Seq<EventTableEntry>;

    /// Whether the figures can be computed: the memory accesses of every
    /// step can be derived, and no figure leaves the machine's word.
    spec fn profilable(&self) -> bool;

    /// The figures of every opcode class, at the position of the class.
    fn profile_instruction(&self) -> (r: Vec<Summary>)
        requires
            self.profilable(),
        ensures
            r@.len() == OPCODE_CLASS_COUNT,
            forall|class: OpcodeClass| #[trigger]
                r@[class.spec_index() as int] == summary_of(self.steps(), class),
            forall|i: int|
                0 <= i < r@.len() ==> (#[trigger] r@[i]).write_counter + r@[i].read_counter
                    == r@[i].mentries,
    ;
}

/// Decides whether an event table can be profiled.
pub fn check_profilable(table: &EventTable) -> (r: bool)
    ensures
        r == table.profilable(),
{
    let events = table.entries();
    if !check_all_in_range(events) {
        return false;
    }
    let mut accesses: usize = 0;
    let mut i: usize = 0;
    while i < events.len()
        invariant
            i <= events@.len(),
            events@ == table@,
            forall|j: int| 0 <= j < events@.len() ==> in_range(#[trigger] events@[j]),
            accesses == tally(events@, None, Measure::Accesses, i as int),
        decreases events@.len() - i,
    {
        let (step_accesses, _, _) = measure(&events[i]);
        if step_accesses > usize::MAX - accesses {
            proof {
                lemma_tally_grows(events@, None, Measure::Accesses, i + 1, events@.len() as int);
            }
            return false;
        }
        accesses = accesses + step_accesses;
        i += 1;
    }
    true
}

/// What a step counts for: its accesses, its writes and its reads.
fn measure(entry: &EventTableEntry) -> (r: (usize, usize, usize))
    requires
        in_range(*entry),
    ensures
        measure_of(Measure::Steps, *entry) == 1,
        r.0 == measure_of(Measure::Accesses, *entry),
        r.1 == measure_of(Measure::Writes, *entry),
        r.2 == measure_of(Measure::Reads, *entry),
{
    reveal(measure_of);
    let ops = memory_event_of_step(entry);
    let (writes, reads) = count_accesses(&ops);
    (ops.len(), writes, reads)
}

fn count_accesses(ops: &Vec<MemoryTableEntry>) -> (r: (usize, usize))
    ensures
        r.0 == count_writes(ops@),
        r.1 == count_reads(ops@),
{
    let mut writes: usize = 0;
    let mut reads: usize = 0;
    let mut i: usize = 0;
    while i < ops.len()
        invariant
            i <= ops.len(),
            writes == count_writes(ops@.take(i as int)),
            reads == count_reads(ops@.take(i as int)),
        decreases ops.len() - i,
    {
        proof {
            assert(ops@.take(i + 1).drop_last() =~= ops@.take(i as int));
            assert(ops@.take(i + 1).last() == ops@[i as int]);
            lemma_counts_within_len(ops@.take(i as int));
        }
        if ops[i].atype == AccessType::Write {
            writes += 1;
        }
        if ops[i].atype == AccessType::Read {
            reads += 1;
        }
        i += 1;
    }
    proof {
        assert(ops@.take(i as int) =~= ops@);
    }
    (writes, reads)
}

impl InstructionStatistic for EventTable {
    open spec fn steps(&self) -> Seq<EventTableEntry> {
        self@
    }

    open spec fn profilable(&self) -> bool {
        &&& forall|i: int| 0 <= i < self@.len() ==> in_range(#[trigger] self@[i])
        &&& tally(self@, None, Measure::Accesses, self@.len() as int) <= usize::MAX
    }

    fn profile_instruction(&self) -> (r: Vec<Summary>) {
        let entries = self.entries();
        let ghost events = self@;
        let n = entries.len();
        let mut counter: Vec<usize> = vec![0; OPCODE_CLASS_COUNT];
        let mut mentries: Vec<usize> = vec![0; OPCODE_CLASS_COUNT];
        let mut write_counter: Vec<usize> = vec![0; OPCODE_CLASS_COUNT];
        let mut read_counter: Vec<usize> = vec![0; OPCODE_CLASS_COUNT];
        let mut total_mentries: usize = 0;
        let mut i: usize = 0;
        proof {
            lemma_tallies_of_nothing(counter@, events, Measure::Steps);
            lemma_tallies_of_nothing(mentries@, events, Measure::Accesses);
            lemma_tallies_of_nothing(write_counter@, events, Measure::Writes);
            lemma_tallies_of_nothing(read_counter@, events, Measure::Reads);
        }
        while i < n
            invariant
                i <= n,
                n == entries@.len(),
                entries@ == events,
                events == self@,
                self.profilable(),
                total_mentries == tally(events, None, Measure::Accesses, i as int),
                tallies(counter@, events, Measure::Steps, i as int),
                tallies(mentries@, events, Measure::Accesses, i as int),
                tallies(write_counter@, events, Measure::Writes, i as int),
                tallies(read_counter@, events, Measure::Reads, i as int),
            decreases n - i,
        {
            let entry = entries[i];
            let class = entry.inst.opcode.class();
            let index = class.index();
            let (accesses, writes, reads) = measure(&entry);
            let ghost counter0 = counter@;
            let ghost mentries0 = mentries@;
            let ghost writes0 = write_counter@;
            let ghost reads0 = read_counter@;
            proof {
                lemma_tally_grows(events, None, Measure::Accesses, i + 1, n as int);
                lemma_tally_within_total(events, Some(class), Measure::Steps, i + 1);
                lemma_tally_within_total(events, Some(class), Measure::Accesses, i + 1);
                lemma_tally_within_total(events, Some(class), Measure::Writes, i + 1);
                lemma_tally_within_total(events, Some(class), Measure::Reads, i + 1);
                assert(events[i as int] == entry);
                lemma_tallies_at(counter0, events, Measure::Steps, i as int, class);
                lemma_tallies_at(mentries0, events, Measure::Accesses, i as int, class);
                lemma_tallies_at(writes0, events, Measure::Writes, i as int, class);
                lemma_tallies_at(reads0, events, Measure::Reads, i as int, class);
            }
            total_mentries = total_mentries + accesses;
            let steps_before = counter[index];
            counter.set(index, steps_before + 1);
            let accesses_before = mentries[index];
            mentries.set(index, accesses_before + accesses);
            let writes_before = write_counter[index];
            write_counter.set(index, writes_before + writes);
            let reads_before = read_counter[index];
            read_counter.set(index, reads_before + reads);
            proof {
                lemma_tallies_step(counter0, counter@, events, Measure::Steps, i as int);
                lemma_tallies_step(mentries0, mentries@, events, Measure::Accesses, i as int);
                lemma_tallies_step(writes0, write_counter@, events, Measure::Writes, i as int);
                lemma_tallies_step(reads0, read_counter@, events, Measure::Reads, i as int);
            }
            i += 1;
        }
        let mut out: Vec<Summary> = Vec::new();
        let mut c: usize = 0;
        while c < OPCODE_CLASS_COUNT
            invariant
                c <= OPCODE_CLASS_COUNT,
                out@.len() == c,
                n == events.len(),
                tallies(counter@, events, Measure::Steps, n as int),
                tallies(mentries@, events, Measure::Accesses, n as int),
                tallies(write_counter@, events, Measure::Writes, n as int),
                tallies(read_counter@, events, Measure::Reads, n as int),
                forall|j: int|
                    0 <= j < c ==> #[trigger] out@[j] == (Summary {
                        counter: counter@[j],
                        mentries: mentries@[j],
                        total_mentries,
                        write_counter: write_counter@[j],
                        read_counter: read_counter@[j],
                    }),
                forall|j: int|
                    0 <= j < c ==> (#[trigger] out@[j]).write_counter + out@[j].read_counter
                        == out@[j].mentries,
            decreases OPCODE_CLASS_COUNT - c,
        {
            let class = OpcodeClass::from_index(c);
            proof {
                let class = class->0;
                lemma_writes_and_reads_are_all_accesses(events, Some(class), n as int);
                lemma_tallies_at(counter@, events, Measure::Steps, n as int, class);
                lemma_tallies_at(mentries@, events, Measure::Accesses, n as int, class);
                lemma_tallies_at(write_counter@, events, Measure::Writes, n as int, class);
                lemma_tallies_at(read_counter@, events, Measure::Reads, n as int, class);
            }
            out.push(
                Summary {
                    counter: counter[c],
                    mentries: mentries[c],
                    total_mentries,
                    write_counter: write_counter[c],
                    read_counter: read_counter[c],
                },
            );
            c += 1;
        }
        proof {
            assert forall|class: OpcodeClass| #[trigger]
                out@[class.spec_index() as int] == summary_of(self.steps(), class) by {
                let j = class.spec_index() as int;
                assert(0 <= j < OPCODE_CLASS_COUNT);
                lemma_tallies_at(counter@, events, Measure::Steps, n as int, class);
                lemma_tallies_at(mentries@, events, Measure::Accesses, n as int, class);
                lemma_tallies_at(write_counter@, events, Measure::Writes, n as int, class);
                lemma_tallies_at(read_counter@, events, Measure::Reads, n as int, class);
            }
        }
        out
    }
}

/// The class at a position.
pub open spec fn class_at(index: int) -> OpcodeClass {
    choose|class: OpcodeClass| class.spec_index() == index
}

/// The figures of the classes that have steps among the first `n` classes,
/// each with its class, in the order of the classes.
pub open spec fn present(profile: Seq<Summary>, n: int) -> Seq<(OpcodeClass, Summary)>
    decreases n,
{
    if n <= 0 {
        Seq::empty()
    } else {
        let before = present(profile, n - 1);
        if profile[n - 1].counter > 0 {
            before.push((class_at(n - 1), profile[n - 1]))
        } else {
            before
        }
    }
}

/// The figures of the classes of which the run has steps, each with its
/// class, in the order of the classes: the profile as a map from the classes
/// that occur.
pub fn present_classes(profile: &Vec<Summary>) -> (r: Vec<(OpcodeClass, Summary)>)
    requires
        profile@.len() == OPCODE_CLASS_COUNT,
    ensures
        r@ == present(profile@, OPCODE_CLASS_COUNT as int),
{
    let mut out: Vec<(OpcodeClass, Summary)> = Vec::new();
    let mut c: usize = 0;
    while c < OPCODE_CLASS_COUNT
        invariant
            c <= OPCODE_CLASS_COUNT,
            profile@.len() == OPCODE_CLASS_COUNT,
            out@ == present(profile@, c as int),
        decreases OPCODE_CLASS_COUNT - c,
    {
        if profile[c].counter > 0 {
            match OpcodeClass::from_index(c) {
                Some(class) => {
                    proof {
                        lemma_index_injective(class, class_at(c as int));
                    }
                    out.push((class, profile[c]));
                },
                None => {},
            }
        }
        c += 1;
    }
    out
}

} // verus!
