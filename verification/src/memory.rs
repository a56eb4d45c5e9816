//! The bounded memory of a conversation: the most recent turns, oldest first.

use crate::value::{Record, RecordView};
use std::collections::VecDeque;
use vstd::prelude::*;

verus! {

/// Who authored a turn.
#[derive(Clone, Copy, Debug, PartialEq, Eq, Structural)]
pub enum Role {
    User,
    Assistant,
    Tool,
}

/// What a turn says: text, or a structured value.
#[derive(Debug, PartialEq, Eq)]
pub enum Content {
    Text(String),
    Structured(Record),
}

/// The content of a turn as a plain value.
pub enum ContentView {
    Text(Seq<char>),
    Structured(RecordView),
}

impl View for Content {
    type V = ContentView;

    open spec fn view(&self) -> ContentView {
        match self {
            Content::Text(text) => ContentView::Text(text@),
            Content::Structured(record) => ContentView::Structured(record@),
        }
    }
}

impl Clone for Content {
    fn clone(&self) -> (copy: Self)
        ensures
            copy@ == self@,
    {
        match self {
            Content::Text(text) => Content::Text(text.clone()),
            Content::Structured(record) => Content::Structured(record.clone()),
        }
    }
}

/// One turn of the conversation. `sequence` is the stamp that the memory gave
/// it when it was appended.
#[derive(Debug, PartialEq, Eq)]
pub struct MemoryTurn {
    pub role: Role,
    pub content: Content,
    pub sequence: u64,
}

/// A turn as a plain value.
pub struct TurnView {
    pub role: Role,
    pub content: ContentView,
    pub sequence: u64,
}

impl View for MemoryTurn {
    type V = TurnView;

    open spec fn view(&self) -> TurnView {
        TurnView { role: self.role, content: self.content@, sequence: self.sequence }
    }
}

impl Clone for MemoryTurn {
    fn clone(&self) -> (copy: Self)
        ensures
            copy@ == self@,
    {
        MemoryTurn { role: self.role, content: self.content.clone(), sequence: self.sequence }
    }
}

/// The turns of a list, as plain values.
pub open spec fn turn_views(turns: Seq<MemoryTurn>) -> Seq<TurnView> {
    turns.map_values(|turn: MemoryTurn| turn@)
}

/// The last `capacity` of `turns`, or all of them if they are no more.
pub open spec fn slide<T>(turns: Seq<T>, capacity: nat) -> Seq<T> {
    if turns.len() > capacity {
        turns.skip(turns.len() - capacity)
    } else {
        turns
    }
}

/// The stamp after `stamp`. The last stamp is its own successor.
pub open spec fn next_stamp(stamp: u64) -> u64 {
    if stamp < u64::MAX {
        (stamp + 1) as u64
    } else {
        stamp
    }
}

/// Stamps grow along the turns, and stay below the next stamp, until the
/// last stamp is reached.
pub open spec fn stamps_ordered(turns: Seq<TurnView>, next: u64) -> bool {
    &&& forall|i: int, j: int|
        0 <= i < j < turns.len() ==> (#[trigger] turns[i]).sequence < (#[trigger] turns[j]).sequence
            || turns[j].sequence == u64::MAX
    &&& forall|i: int|
        0 <= i < turns.len() ==> (#[trigger] turns[i]).sequence < next || next == u64::MAX
}

/// A memory as a plain value: the turns it holds, the most it holds, and the
/// stamp that the next turn gets.
pub struct MemoryView {
    pub turns: Seq<TurnView>,
    pub limit: nat,
    pub next: u64,
}

impl MemoryView {
    /// The memory after a turn was appended: the turn gets the next stamp,
    /// and the oldest turn leaves if the window was full.
    pub open spec fn append(self, role: Role, content: ContentView) -> MemoryView {
        MemoryView {
            turns: slide(
                self.turns.push(TurnView { role, content, sequence: self.next }),
                self.limit,
            ),
            limit: self.limit,
            next: next_stamp(self.next),
        }
    }

    /// The memory after turns were appended one by one, each given by its
    /// role and content.
    pub open spec fn append_all(self, entries: Seq<(Role, ContentView)>) -> MemoryView
        decreases entries.len(),
    {
        if entries.len() == 0 {
            self
        } else {
            self.append(entries.first().0, entries.first().1).append_all(entries.drop_first())
        }
    }

    /// The memory after it was cleared. The stamps go on where they were.
    pub open spec fn cleared(self) -> MemoryView {
        MemoryView { turns: Seq::empty(), limit: self.limit, next: self.next }
    }

    /// What every memory satisfies: it has room for a turn, holds no more
    /// than its limit, and its stamps are in order.
    pub open spec fn wf(self) -> bool {
        &&& self.limit >= 1
        &&& self.turns.len() <= self.limit
        &&& stamps_ordered(self.turns, self.next)
    }
}

/// A window over the conversation that holds at most `capacity` turns.
pub struct Memory {
    turns: VecDeque<MemoryTurn>,
    capacity: usize,
    next_sequence: u64,
}

impl View for Memory {
    type V = MemoryView;

    closed spec fn view(&self) -> MemoryView {
        MemoryView {
            turns: turn_views(self.turns@),
            limit: self.capacity as nat,
            next: self.next_sequence,
        }
    }
}

impl Memory {
    #[verifier::type_invariant]
    spec fn inv(&self) -> bool {
        self@.wf()
    }

    /// An empty memory for `capacity` turns.
    pub fn new(capacity: usize) -> (memory: Memory)
        requires
            capacity >= 1,
        ensures
            memory@ == (MemoryView { turns: Seq::empty(), limit: capacity as nat, next: 0 }),
    {
        let memory = Memory { turns: VecDeque::new(), capacity, next_sequence: 0 };
        assert(memory@.turns =~= Seq::<TurnView>::empty());
        memory
    }

    /// The most turns it holds.
    pub fn capacity(&self) -> (capacity: usize)
        ensures
            capacity == self@.limit,
            self@.wf(),
    {
        proof {
            use_type_invariant(self);
        }
        self.capacity
    }

    /// The number of turns it holds.
    pub fn len(&self) -> (len: usize)
        ensures
            len == self@.turns.len(),
            self@.wf(),
    {
        proof {
            use_type_invariant(self);
        }
        self.turns.len()
    }

    /// Whether it holds no turn.
    pub fn is_empty(&self) -> (empty: bool)
        ensures
            empty == (self@.turns.len() == 0),
    {
        self.turns.len() == 0
    }

    /// Appends a turn, stamped with the next stamp. If the memory is full the
    /// oldest turn leaves first.
    pub fn append(&mut self, role: Role, content: Content)
        ensures
            final(self)@ == old(self)@.append(role, content@),
            final(self)@.wf(),
    {
        proof {
            use_type_invariant(&*self);
        }
        let ghost before = self.turns@;
        let stamp = self.next_sequence;
        let mut turns: VecDeque<MemoryTurn> = VecDeque::new();
        core::mem::swap(&mut self.turns, &mut turns);
        if turns.len() == self.capacity {
            turns.pop_front();
        }
        let ghost kept = turns@;
        turns.push_back(MemoryTurn { role, content, sequence: stamp });
        proof {
            let turn = TurnView { role, content: content@, sequence: stamp };
            assert(turn_views(turns@) =~= turn_views(kept).push(turn));
            assert(turn_views(turns@) =~= slide(
                turn_views(before).push(turn),
                self.capacity as nat,
            ));
        }
        if stamp < u64::MAX {
            self.next_sequence = stamp + 1;
        }
        self.turns = turns;
    }

    /// The turns it holds, oldest first, as a list of their own.
    pub fn snapshot(&self) -> (turns: Vec<MemoryTurn>)
        ensures
            turn_views(turns@) == self@.turns,
            self@.wf(),
    {
        proof {
            use_type_invariant(self);
        }
        let mut turns: Vec<MemoryTurn> = Vec::new();
        let mut at: usize = 0;
        while at < self.turns.len()
            invariant
                at <= self.turns@.len(),
                turns@.len() == at,
                forall|i: int| 0 <= i < at ==> (#[trigger] turns@[i])@ == self.turns@[i]@,
            decreases self.turns@.len() - at,
        {
            turns.push(self.turns[at].clone());
            at = at + 1;
        }
        assert(turn_views(turns@) =~= turn_views(self.turns@));
        turns
    }

    /// Empties the window. The stamps go on where they were.
    pub fn clear(&mut self)
        ensures
            final(self)@ == old(self)@.cleared(),
    {
        proof {
            use_type_invariant(&*self);
        }
        self.turns = VecDeque::new();
        assert(turn_views(self.turns@) =~= Seq::<TurnView>::empty());
    }
}

/// Appending adds exactly one turn: afterwards the memory ends in the new
/// turn, which has the stamp that was next, and before it holds what it
/// held, less the oldest turn if it was full. It stays within its limit, and
/// its stamps stay in order.
pub proof fn law_append_adds_one_turn(memory: MemoryView, role: Role, content: ContentView)
    requires
        memory.wf(),
    ensures
        ({
            let after = memory.append(role, content);
            &&& after.wf()
            &&& after.turns.len() > 0
            &&& after.turns.last() == (TurnView { role, content, sequence: memory.next })
            &&& after.turns.drop_last() == if memory.turns.len() < memory.limit {
                memory.turns
            } else {
                memory.turns.drop_first()
            }
        }),
{
    let after = memory.append(role, content);
    assert(after.turns.drop_last() =~= if memory.turns.len() < memory.limit {
        memory.turns
    } else {
        memory.turns.drop_first()
    });
}

/// What a window holds after `added` was appended to it, one by one.
pub open spec fn after_appending<T>(held: Seq<T>, added: Seq<T>, capacity: nat) -> Seq<T>
    decreases added.len(),
{
    if added.len() == 0 {
        held
    } else {
        after_appending(slide(held.push(added.first()), capacity), added.drop_first(), capacity)
    }
}

/// Sliding before more is added changes nothing once the whole has slid.
proof fn lemma_slide_absorbs<T>(held: Seq<T>, added: Seq<T>, capacity: nat)
    ensures
        slide(slide(held, capacity) + added, capacity) == slide(held + added, capacity),
{
    assert(slide(slide(held, capacity) + added, capacity) =~= slide(held + added, capacity));
}

/// Appending one by one to a window within its capacity comes to the same
/// as sliding once over all.
proof fn lemma_after_appending<T>(held: Seq<T>, added: Seq<T>, capacity: nat)
    requires
        held.len() <= capacity,
    ensures
        after_appending(held, added, capacity) == slide(held + added, capacity),
    decreases added.len(),
{
    if added.len() == 0 {
        assert(held + added =~= held);
    } else {
        let first = held.push(added.first());
        lemma_after_appending(slide(first, capacity), added.drop_first(), capacity);
        lemma_slide_absorbs(first, added.drop_first(), capacity);
        assert(first + added.drop_first() =~= held + added);
    }
}

/// A window of `capacity` turns to which at least `capacity` turns were
/// appended holds the last `capacity` of them, in the order in which they
/// came, whatever it held before.
pub proof fn law_window_keeps_most_recent<T>(held: Seq<T>, added: Seq<T>, capacity: nat)
    requires
        capacity >= 1,
        added.len() >= capacity,
    ensures
        after_appending(held, added, capacity) == added.skip(added.len() - capacity),
{
    let first = held.push(added.first());
    lemma_after_appending(slide(first, capacity), added.drop_first(), capacity);
    lemma_slide_absorbs(first, added.drop_first(), capacity);
    assert(first + added.drop_first() =~= held + added);
    assert(slide(held + added, capacity) =~= added.skip(added.len() - capacity));
}

/// Role and content of each turn.
pub open spec fn entries_of(turns: Seq<TurnView>) -> Seq<(Role, ContentView)> {
    turns.map_values(|turn: TurnView| (turn.role, turn.content))
}

/// The turns that entries become when they are stamped from `next` on.
pub open spec fn stamped(entries: Seq<(Role, ContentView)>, next: u64) -> Seq<TurnView>
    decreases entries.len(),
{
    if entries.len() == 0 {
        Seq::empty()
    } else {
        seq![TurnView { role: entries.first().0, content: entries.first().1, sequence: next }]
            + stamped(entries.drop_first(), next_stamp(next))
    }
}

proof fn lemma_stamped(entries: Seq<(Role, ContentView)>, next: u64)
    ensures
        entries_of(stamped(entries, next)) == entries,
    decreases entries.len(),
{
    if entries.len() > 0 {
        lemma_stamped(entries.drop_first(), next_stamp(next));
        let rest = stamped(entries.drop_first(), next_stamp(next));
        assert(entries_of(rest) == entries.drop_first());
        assert forall|i: int| 0 <= i < entries.len() implies entries_of(stamped(entries, next))[i]
            == entries[i] by {
            if i > 0 {
                assert(stamped(entries, next)[i] == rest[i - 1]);
                assert(entries_of(rest)[i - 1] == entries.drop_first()[i - 1]);
            }
        }
        assert(entries_of(stamped(entries, next)) =~= entries);
    } else {
        assert(entries_of(stamped(entries, next)) =~= entries);
    }
}

proof fn lemma_append_all(memory: MemoryView, entries: Seq<(Role, ContentView)>)
    ensures
        memory.append_all(entries).turns == after_appending(
            memory.turns,
            stamped(entries, memory.next),
            memory.limit,
        ),
        memory.append_all(entries).limit == memory.limit,
    decreases entries.len(),
{
    if entries.len() > 0 {
        let next = memory.append(entries.first().0, entries.first().1);
        lemma_append_all(next, entries.drop_first());
        let turns = stamped(entries, memory.next);
        assert(turns.drop_first() =~= stamped(entries.drop_first(), next.next));
    }
}

/// A memory to which at least as many turns were appended as it holds, holds
/// the last of them, as many as it has room for, in the order in which they
/// came.
pub proof fn law_memory_keeps_most_recent(memory: MemoryView, entries: Seq<(Role, ContentView)>)
    requires
        memory.limit >= 1,
        entries.len() >= memory.limit,
    ensures
        memory.append_all(entries).turns.len() == memory.limit,
        entries_of(memory.append_all(entries).turns) == entries.skip(
            entries.len() - memory.limit,
        ),
{
    let turns = stamped(entries, memory.next);
    lemma_stamped(entries, memory.next);
    assert(turns.len() == entries.len()) by {
        assert(entries_of(turns).len() == turns.len());
    }
    lemma_append_all(memory, entries);
    law_window_keeps_most_recent(memory.turns, turns, memory.limit);
    let kept = turns.skip(turns.len() - memory.limit);
    assert forall|i: int| 0 <= i < kept.len() implies entries_of(kept)[i] == entries.skip(
        entries.len() - memory.limit,
    )[i] by {
        assert(kept[i] == turns[i + turns.len() - memory.limit]);
        assert(entries_of(turns)[i + turns.len() - memory.limit] == entries[i + entries.len()
            - memory.limit]);
    }
    assert(entries_of(kept) =~= entries.skip(entries.len() - memory.limit));
}

} // verus!
