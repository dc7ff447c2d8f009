use vstd::prelude::*;

verus! {

/// Which producer observed a game event.
#[derive(Debug, Clone, Copy, PartialEq, Eq, Hash, Structural)]
pub enum EventSource {
    Mod,
    Dll,
    External,
}

/// What happened in the game.
#[derive(Debug, Clone, Copy, PartialEq, Eq, Hash, Structural)]
pub enum EventKind {
    Kill,
    Death,
    Assist,
    AbilityUsed { slot: u8 },
    AbilityReady { slot: u8 },
    Parry,
    Parried,
    PunchLanded,
    PunchTaken,
    Respawn,
}

/// One observed game event, stamped by its producer.
#[derive(Debug, Clone, Copy, PartialEq, Eq, Hash, Structural)]
pub struct GameEvent {
    pub sequence: u64,
    pub wall_time_ms: u64,
    pub source: EventSource,
    pub kind: EventKind,
}

/// An event kind reports an ability transition.
pub open spec fn is_ability_kind(kind: EventKind) -> bool {
    kind is AbilityUsed || kind is AbilityReady
}

impl GameEvent {
    pub fn new(sequence: u64, wall_time_ms: u64, source: EventSource, kind: EventKind) -> (event: Self)
        ensures
            event == (GameEvent { sequence, wall_time_ms, source, kind }),
    {
        GameEvent { sequence, wall_time_ms, source, kind }
    }

    pub fn is_ability(&self) -> (b: bool)
        ensures
            b == is_ability_kind(self.kind),
    {
        match self.kind {
            EventKind::AbilityUsed { .. } | EventKind::AbilityReady { .. } => true,
            _ => false,
        }
    }
}

/// `count` copies of an event kind.
pub open spec fn repeat_kind(kind: EventKind, count: nat) -> Seq<EventKind> {
    Seq::new(count, |i: int| kind)
}

/// Sequence numbers wrap at this value.
pub open spec fn seq_modulus() -> int {
    0x1_0000_0000_0000_0000
}

/// The events emitted for these kinds: consecutive sequence numbers after
/// `sequence` (wrapping), all stamped with `now` and `source`.
pub open spec fn stamp(kinds: Seq<EventKind>, sequence: u64, now: u64, source: EventSource) -> Seq<
    GameEvent,
> {
    Seq::new(
        kinds.len(),
        |i: int|
            GameEvent {
                sequence: ((sequence + i + 1) % seq_modulus()) as u64,
                wall_time_ms: now,
                source,
                kind: kinds[i],
            },
    )
}

/// `events` are the stamped `kinds` and `sequence` is the last number used.
pub open spec fn emitted(
    source: EventSource,
    events: Seq<GameEvent>,
    kinds: Seq<EventKind>,
    start: u64,
    now: u64,
    sequence: u64,
) -> bool {
    events == stamp(kinds, start, now, source) && sequence == ((start + kinds.len())
        % seq_modulus()) as u64
}

/// Append one event with the next sequence number.
pub(crate) fn emit(
    source: EventSource,
    sequence: &mut u64,
    events: &mut Vec<GameEvent>,
    kind: EventKind,
    now: u64,
    Ghost(start): Ghost<u64>,
    Ghost(kinds): Ghost<Seq<EventKind>>,
)
    requires
        emitted(source, old(events)@, kinds, start, now, *old(sequence)),
    ensures
        emitted(source, final(events)@, kinds.push(kind), start, now, *final(sequence)),
{
    let next: u64 = if *sequence == u64::MAX {
        0
    } else {
        *sequence + 1
    };
    proof {
        let a = start + kinds.len();
        vstd::arithmetic::div_mod::lemma_add_mod_noop(a, 1, seq_modulus());
        assert(1int % seq_modulus() == 1);
        assert(next == ((a + 1) % seq_modulus()) as u64);
    }
    *sequence = next;
    events.push(GameEvent { sequence: next, wall_time_ms: now, source, kind });
    proof {
        assert(events@ =~= stamp(kinds.push(kind), start, now, source));
    }
}

/// Append `count` events of one kind.
pub(crate) fn emit_repeat(
    source: EventSource,
    sequence: &mut u64,
    events: &mut Vec<GameEvent>,
    kind: EventKind,
    count: u32,
    now: u64,
    Ghost(start): Ghost<u64>,
    Ghost(kinds): Ghost<Seq<EventKind>>,
)
    requires
        emitted(source, old(events)@, kinds, start, now, *old(sequence)),
    ensures
        emitted(
            source,
            final(events)@,
            kinds + repeat_kind(kind, count as nat),
            start,
            now,
            *final(sequence),
        ),
{
    let mut i: u32 = 0;
    while i < count
        invariant
            i <= count,
            emitted(source, events@, kinds + repeat_kind(kind, i as nat), start, now, *sequence),
        decreases count - i,
    {
        emit(
            source,
            sequence,
            events,
            kind,
            now,
            Ghost(start),
            Ghost(kinds + repeat_kind(kind, i as nat)),
        );
        assert((kinds + repeat_kind(kind, i as nat)).push(kind) =~= kinds + repeat_kind(
            kind,
            (i + 1) as nat,
        ));
        i += 1;
    }
}

/// How many of the kinds are `k`.
pub open spec fn kind_count(kinds: Seq<EventKind>, k: EventKind) -> nat
    decreases kinds.len(),
{
    if kinds.len() == 0 {
        0
    } else {
        kind_count(kinds.drop_last(), k) + if kinds.last() == k {
            1nat
        } else {
            0nat
        }
    }
}

/// Counting over two runs of kinds adds up.
pub proof fn lemma_kind_count_concat(a: Seq<EventKind>, b: Seq<EventKind>, k: EventKind)
    ensures
        kind_count(a + b, k) == kind_count(a, k) + kind_count(b, k),
    decreases b.len(),
{
    if b.len() == 0 {
        assert(a + b =~= a);
    } else {
        assert((a + b).drop_last() =~= a + b.drop_last());
        lemma_kind_count_concat(a, b.drop_last(), k);
    }
}

/// A run of one kind counts its length for that kind and nothing for others.
pub proof fn lemma_kind_count_repeat(kind: EventKind, n: nat, k: EventKind)
    ensures
        kind_count(repeat_kind(kind, n), k) == if kind == k {
            n
        } else {
            0
        },
    decreases n,
{
    if n > 0 {
        assert(repeat_kind(kind, n).drop_last() =~= repeat_kind(kind, (n - 1) as nat));
        lemma_kind_count_repeat(kind, (n - 1) as nat, k);
    }
}

/// A single kind counts once for itself.
pub proof fn lemma_kind_count_single(kind: EventKind, k: EventKind)
    ensures
        kind_count(seq![kind], k) == if kind == k {
            1nat
        } else {
            0nat
        },
{
    let s = seq![kind];
    assert(s.drop_last() =~= Seq::<EventKind>::empty());
    assert(kind_count(Seq::<EventKind>::empty(), k) == 0);
    assert(s.last() == kind);
}

/// Stamped events carry consecutive sequence numbers.
pub proof fn lemma_stamp_consecutive(kinds: Seq<EventKind>, sequence: u64, now: u64, source: EventSource, i: int)
    requires
        0 <= i < kinds.len(),
    ensures
        stamp(kinds, sequence, now, source)[i].sequence == ((sequence + i + 1) % seq_modulus()) as u64,
        stamp(kinds, sequence, now, source)[i].kind == kinds[i],
        i + 1 < kinds.len() ==> stamp(kinds, sequence, now, source)[i + 1].sequence == ((stamp(
            kinds,
            sequence,
            now,
            source,
        )[i].sequence + 1) % seq_modulus()) as u64,
{
    if i + 1 < kinds.len() {
        vstd::arithmetic::div_mod::lemma_add_mod_noop(sequence + i + 1, 1, seq_modulus());
        assert(1int % seq_modulus() == 1);
    }
}

} // verus!
