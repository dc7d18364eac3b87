//! Foveation centers by frame timestamp.

use crate::duration::Duration;
use crate::projection::Vec2;
use std::collections::VecDeque;
use vstd::prelude::*;

verus! {

/// How many entries a history keeps.
pub const CENTER_HISTORY_CAPACITY: usize = 360;

/// A frame timestamp with the center shifts of the left eye and the right one.
pub type Entry = (Duration, [Vec2; 2]);

/// The centers of the most recent frames, oldest first.
pub struct CenterHistory {
    samples: VecDeque<Entry>,
}

impl View for CenterHistory {
    type V = Seq<Entry>;

    closed spec fn view(&self) -> Seq<Entry> {
        self.samples@
    }
}

/// The most recent entries, as many as a history keeps.
pub open spec fn kept(entries: Seq<Entry>) -> Seq<Entry> {
    if entries.len() > CENTER_HISTORY_CAPACITY {
        entries.skip(entries.len() - CENTER_HISTORY_CAPACITY)
    } else {
        entries
    }
}

/// What a history holds after one more entry.
pub open spec fn recorded(entries: Seq<Entry>, timestamp: Duration, centers: [Vec2; 2]) -> Seq<
    Entry,
> {
    kept(entries.push((timestamp, centers)))
}

/// What a history holds after all the entries of `later`, inserted in order.
pub open spec fn recorded_all(entries: Seq<Entry>, later: Seq<Entry>) -> Seq<Entry>
    decreases later.len(),
{
    if later.len() == 0 {
        entries
    } else {
        recorded(recorded_all(entries, later.drop_last()), later.last().0, later.last().1)
    }
}

/// The centers of the most recent entry with this timestamp.
pub open spec fn lookup(entries: Seq<Entry>, timestamp: Duration) -> Option<[Vec2; 2]>
    decreases entries.len(),
{
    if entries.len() == 0 {
        None
    } else if entries.last().0 == timestamp {
        Some(entries.last().1)
    } else {
        lookup(entries.drop_last(), timestamp)
    }
}

impl CenterHistory {
    /// A history never holds more than its capacity.
    pub open spec fn wf(&self) -> bool {
        self@.len() <= CENTER_HISTORY_CAPACITY
    }

    /// An empty history.
    pub fn new() -> (r: CenterHistory)
        ensures
            r@ == Seq::<Entry>::empty(),
            r.wf(),
    {
        CenterHistory { samples: VecDeque::new() }
    }

    /// Forgets all entries.
    pub fn clear(&mut self)
        ensures
            final(self)@ == Seq::<Entry>::empty(),
            final(self).wf(),
    {
        self.samples.clear();
    }

    /// Adds the centers of a frame, and drops the oldest entries beyond the capacity.
    pub fn insert(&mut self, timestamp: Duration, centers: [Vec2; 2])
        ensures
            final(self)@ == recorded(old(self)@, timestamp, centers),
            final(self).wf(),
    {
        let ghost all = self@.push((timestamp, centers));
        self.samples.push_back((timestamp, centers));
        assert(self@ == all.skip(0));
        while self.samples.len() > CENTER_HISTORY_CAPACITY
            invariant
                self@.len() <= all.len(),
                self@ == all.skip(all.len() - self@.len()),
                self@.len() >= CENTER_HISTORY_CAPACITY || self@ == all,
            decreases self@.len(),
        {
            let ghost before = self@;
            self.samples.pop_front();
            assert(self@ == before.skip(1));
            assert(self@ == all.skip(all.len() - self@.len()));
        }
        assert(all.skip(0) == all);
    }

    /// The centers that were inserted last under this timestamp, if the history still has them.
    pub fn get(&self, timestamp: Duration) -> (r: Option<[Vec2; 2]>)
        ensures
            r == lookup(self@, timestamp),
    {
        let mut i: usize = self.samples.len();
        assert(self@.take(i as int) == self@);
        while i > 0
            invariant
                i <= self@.len(),
                lookup(self@, timestamp) == lookup(self@.take(i as int), timestamp),
            decreases i,
        {
            i = i - 1;
            assert(self@.take(i + 1).drop_last() == self@.take(i as int));
            let entry = self.samples[i];
            assert(entry == self@.take(i + 1).last());
            if entry.0 == timestamp {
                return Some(entry.1);
            }
        }
        None
    }
}

/// A lookup goes by the newer part of a history where that has the timestamp, else by the older.
proof fn lemma_lookup_concat(older: Seq<Entry>, newer: Seq<Entry>, timestamp: Duration)
    ensures
        lookup(older + newer, timestamp) == (match lookup(newer, timestamp) {
            Some(centers) => Some(centers),
            None => lookup(older, timestamp),
        }),
    decreases newer.len(),
{
    let all = older + newer;
    if newer.len() == 0 {
        assert(all == older);
    } else {
        assert(all.last() == newer.last());
        assert(all.drop_last() == older + newer.drop_last());
        lemma_lookup_concat(older, newer.drop_last(), timestamp);
    }
}

/// A lookup gives the centers of the last entry with the timestamp, and nothing exactly where no
/// entry has it.
pub proof fn law_lookup_gives_most_recent(entries: Seq<Entry>, timestamp: Duration)
    ensures
        match lookup(entries, timestamp) {
            Some(centers) => exists|i: int|
                #![trigger entries[i]]
                0 <= i < entries.len() && entries[i] == (timestamp, centers) && forall|j: int|
                    i < j < entries.len() ==> (#[trigger] entries[j]).0 != timestamp,
            None => forall|i: int|
                0 <= i < entries.len() ==> (#[trigger] entries[i]).0 != timestamp,
        },
    decreases entries.len(),
{
    if entries.len() > 0 {
        let n = entries.len() - 1;
        let rest = entries.drop_last();
        if entries[n].0 == timestamp {
            assert(entries[n] == (timestamp, entries[n].1));
        } else {
            law_lookup_gives_most_recent(rest, timestamp);
            match lookup(rest, timestamp) {
                Some(centers) => {
                    let i = choose|i: int|
                        #![trigger rest[i]]
                        0 <= i < rest.len() && rest[i] == (timestamp, centers) && forall|j: int|
                            i < j < rest.len() ==> (#[trigger] rest[j]).0 != timestamp;
                    assert(entries[i] == (timestamp, centers));
                    assert forall|j: int| i < j < entries.len() implies (
                    #[trigger] entries[j]).0 != timestamp by {
                        if j < n {
                            assert(rest[j] == entries[j]);
                        }
                    }
                },
                None => {
                    assert forall|j: int| 0 <= j < entries.len() implies (
                    #[trigger] entries[j]).0 != timestamp by {
                        if j < n {
                            assert(rest[j] == entries[j]);
                        }
                    }
                },
            }
        }
    }
}

/// Centers that were just inserted are found under their timestamp.
pub proof fn law_insert_then_get(entries: Seq<Entry>, timestamp: Duration, centers: [Vec2; 2])
    ensures
        lookup(recorded(entries, timestamp, centers), timestamp) == Some(centers),
{
    assert(recorded(entries, timestamp, centers).last() == (timestamp, centers));
}

/// An insertion changes what is found under no other timestamp, except that a full history drops
/// its oldest entry: that matters only to a timestamp that no newer entry has.
pub proof fn law_insert_keeps_other_frames(
    entries: Seq<Entry>,
    timestamp: Duration,
    centers: [Vec2; 2],
    other: Duration,
)
    requires
        entries.len() <= CENTER_HISTORY_CAPACITY,
        other != timestamp,
        entries.len() < CENTER_HISTORY_CAPACITY || entries[0].0 != other || lookup(
            entries.drop_first(),
            other,
        ) is Some,
    ensures
        lookup(recorded(entries, timestamp, centers), other) == lookup(entries, other),
{
    let all = entries.push((timestamp, centers));
    let now = recorded(entries, timestamp, centers);
    if entries.len() < CENTER_HISTORY_CAPACITY {
        assert(now == all);
        assert(all.drop_last() == entries);
    } else {
        let rest = entries.drop_first();
        let oldest = entries.take(1);
        assert(now.drop_last() == rest);
        assert(oldest + rest == entries);
        lemma_lookup_concat(oldest, rest, other);
        assert(oldest.drop_last() == Seq::<Entry>::empty());
        assert(lookup(Seq::<Entry>::empty(), other) is None);
    }
}

/// Inserting entries one by one leaves the most recent ones of all, as many as fit.
pub proof fn law_history_holds_most_recent(entries: Seq<Entry>, later: Seq<Entry>)
    requires
        entries.len() <= CENTER_HISTORY_CAPACITY,
    ensures
        recorded_all(entries, later) == kept(entries + later),
    decreases later.len(),
{
    if later.len() == 0 {
        assert(entries + later == entries);
    } else {
        let rest = later.drop_last();
        law_history_holds_most_recent(entries, rest);
        let before = entries + rest;
        let all = entries + later;
        assert(all == before.push(later.last()));
        assert(recorded(kept(before), later.last().0, later.last().1) == kept(all));
    }
}

/// The centers of a frame are found until as many other frames as the history has room for have
/// followed, and no longer.
pub proof fn law_frame_is_found_until_pushed_out(
    entries: Seq<Entry>,
    timestamp: Duration,
    centers: [Vec2; 2],
    later: Seq<Entry>,
)
    requires
        entries.len() <= CENTER_HISTORY_CAPACITY,
        forall|i: int| 0 <= i < later.len() ==> (#[trigger] later[i]).0 != timestamp,
    ensures
        lookup(recorded_all(recorded(entries, timestamp, centers), later), timestamp) == (
        if later.len() < CENTER_HISTORY_CAPACITY {
            Some(centers)
        } else {
            None
        }),
{
    let start = recorded(entries, timestamp, centers);
    law_history_holds_most_recent(start, later);
    let all = start + later;
    let now = kept(all);
    assert(lookup(later, timestamp) is None) by {
        law_lookup_gives_most_recent(later, timestamp);
    }
    if later.len() < CENTER_HISTORY_CAPACITY {
        let first = now.len() - later.len() - 1;
        let older = now.take(first + 1);
        assert(older + later == now);
        assert(older.last() == (timestamp, centers));
        lemma_lookup_concat(older, later, timestamp);
    } else {
        let n = later.len() - CENTER_HISTORY_CAPACITY;
        assert(now == later.skip(n));
        assert(later.take(n) + now == later);
        lemma_lookup_concat(later.take(n), now, timestamp);
    }
}

/// An insertion puts its entry last and moves no other out of order: what remains are the last 360
/// entries at most, each as it was.
pub proof fn law_insert_adds_one_entry(
    entries: Seq<Entry>,
    timestamp: Duration,
    centers: [Vec2; 2],
)
    ensures
        ({
            let now = recorded(entries, timestamp, centers);
            &&& now.len() == (if entries.len() < 360 {
                entries.len() + 1
            } else {
                360
            })
            &&& now[now.len() - 1] == (timestamp, centers)
            &&& forall|i: int|
                0 <= i < now.len() - 1 ==> #[trigger] now[i] == entries[entries.len() + 1
                    - now.len() + i]
        }),
{
}

} // verus!
