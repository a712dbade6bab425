use vstd::prelude::*;
use vstd::string::*;
use crate::normalize::{normalize, normalized};

verus! {

/// The property whose changes are watched.
pub const ORIENTATION_PROPERTY: &'static str = "AccelerometerOrientation";

/// The category to dispatch when a settled read gives `read` after `last`:
/// the normalized new value if it changed, nothing otherwise.
pub open spec fn settle_step(last: Seq<char>, read: Seq<char>) -> Option<Seq<char>> {
    if read != last {
        Some(normalized(read))
    } else {
        None
    }
}

/// The categories dispatched, in order, for a run of settled reads from `last` on.
pub open spec fn dispatched(last: Seq<char>, reads: Seq<Seq<char>>) -> Seq<Seq<char>>
    decreases reads.len(),
{
    if reads.len() == 0 {
        Seq::empty()
    } else {
        let head = match settle_step(last, reads[0]) {
            Some(c) => seq![c],
            None => Seq::empty(),
        };
        head + dispatched(reads[0], reads.drop_first())
    }
}

/// The debounce state of the event loop: the last orientation acted upon and the
/// delay to wait after a change notification.
#[derive(Debug, Clone, PartialEq)]
pub struct Watcher {
    pub last: String,
    pub debounce: u64,
}

impl Watcher {
    /// Primes the state with the orientation read at startup; nothing is dispatched for it.
    pub fn new(initial: String, debounce: u64) -> (r: Watcher)
        ensures
            r.last@ == initial@,
            r.debounce == debounce,
    {
        Watcher { last: initial, debounce }
    }

    /// For a notification whose changed properties are `changed`: the delay to
    /// sleep before re-reading the orientation, or `None` to ignore it.
    pub fn on_notification(&self, changed: &Vec<String>) -> (r: Option<u64>)
        ensures
            r == if exists|i: int| 0 <= i < changed@.len() && (#[trigger] changed@[i])@ == ORIENTATION_PROPERTY@ {
                Some(self.debounce)
            } else {
                None::<u64>
            },
    {
        let key = String::from_str(ORIENTATION_PROPERTY);
        let mut i: usize = 0;
        while i < changed.len()
            invariant
                i <= changed@.len(),
                key@ == ORIENTATION_PROPERTY@,
                forall|a: int| 0 <= a < i ==> (#[trigger] changed@[a])@ != ORIENTATION_PROPERTY@,
            decreases changed@.len() - i,
        {
            if changed[i] == key {
                return Some(self.debounce);
            }
            i += 1;
        }
        None
    }

    /// After the debounce delay the orientation reads `current`: returns the
    /// category to dispatch if it differs from the last one, and remembers it.
    pub fn on_settled(&mut self, current: String) -> (r: Option<String>)
        ensures
            final(self).last@ == current@,
            final(self).debounce == old(self).debounce,
            match r {
                Some(c) => settle_step(old(self).last@, current@) == Some(c@),
                None => settle_step(old(self).last@, current@) is None,
            },
    {
        if current == self.last {
            None
        } else {
            let c = normalize(current.as_str());
            self.last = current;
            Some(c)
        }
    }
}

/// A burst that settles back on the last orientation dispatches nothing: when
/// every settled read equals `last`, no category is dispatched.
pub proof fn lemma_burst_settling_back_is_silent(last: Seq<char>, reads: Seq<Seq<char>>)
    requires
        forall|i: int| 0 <= i < reads.len() ==> #[trigger] reads[i] == last,
    ensures
        dispatched(last, reads) == Seq::<Seq<char>>::empty(),
    decreases reads.len(),
{
    if reads.len() > 0 {
        let rest = reads.drop_first();
        assert forall|i: int| 0 <= i < rest.len() implies #[trigger] rest[i] == last by {
            assert(rest[i] == reads[i + 1]);
        }
        lemma_burst_settling_back_is_silent(last, rest);
        assert(dispatched(last, reads) =~= Seq::<Seq<char>>::empty());
    }
}

/// One settled read of a new orientation `b` dispatches exactly once, with the
/// category of `b`.
pub proof fn lemma_single_change_dispatches_once(a: Seq<char>, b: Seq<char>)
    requires
        b != a,
    ensures
        dispatched(a, seq![b]) == seq![normalized(b)],
{
    assert(seq![b].drop_first() =~= Seq::<Seq<char>>::empty());
    assert(seq![b][0] == b);
    assert(dispatched(b, Seq::<Seq<char>>::empty()) == Seq::<Seq<char>>::empty());
    assert(dispatched(a, seq![b]) =~= seq![normalized(b)]);
}

} // verus!
