//! The reconciliation state and its decisions: a tracker mapping live
//! container identity to the service name currently applied for it, event
//! classification, and the retraction rule for stop events.
//!
//! A container identity is in the tracker if and only if the last known
//! action for it was a successful configuration application that has not
//! yet been retracted.  On a stop event the tracked entry is authoritative
//! over anything the event's own attributes would derive.

use vstd::prelude::*;
use crate::compile::label_of;
use crate::text::strip_leading;

verus! {

/// Which handling a runtime lifecycle event gets.
#[derive(Debug, Clone, Copy, PartialEq, Eq, Structural)]
pub enum EventAction {
    Start,
    Stop,
    Other,
}

/// `start` re-applies; `die` and `stop` collapse to the same retraction
/// handling; everything else is ignored.
pub open spec fn spec_classify(a: Seq<char>) -> EventAction {
    if a == "start"@ {
        EventAction::Start
    } else if a == "die"@ || a == "stop"@ {
        EventAction::Stop
    } else {
        EventAction::Other
    }
}

/// Classifies a runtime event's action string.
pub fn classify_action(action: &str) -> (r: EventAction)
    ensures
        r == spec_classify(action@),
{
    if crate::text::str_eq(action, "start") {
        EventAction::Start
    } else if crate::text::str_eq(action, "die") || crate::text::str_eq(action, "stop") {
        EventAction::Stop
    } else {
        EventAction::Other
    }
}

/// The mapping an association list denotes, later entries overriding
/// earlier ones.
pub open spec fn entries_map(s: Seq<(String, String)>) -> Map<Seq<char>, Seq<char>>
    decreases s.len(),
{
    if s.len() == 0 {
        Map::empty()
    } else {
        entries_map(s.drop_last()).insert(s.last().0@, s.last().1@)
    }
}

pub proof fn lemma_entries_map_contains(s: Seq<(String, String)>, k: Seq<char>)
    ensures
        entries_map(s).contains_key(k) <==> exists|i: int| 0 <= i < s.len() && s[i].0@ == k,
        entries_map(s).dom().finite(),
    decreases s.len(),
{
    if s.len() > 0 {
        lemma_entries_map_contains(s.drop_last(), k);
        if entries_map(s).contains_key(k) {
            if s.last().0@ == k {
                assert(s[s.len() - 1].0@ == k);
            } else {
                let i = choose|i: int| 0 <= i < s.drop_last().len() && s.drop_last()[i].0@ == k;
                assert(s[i].0@ == k);
            }
        }
        if exists|i: int| 0 <= i < s.len() && s[i].0@ == k {
            let i = choose|i: int| 0 <= i < s.len() && s[i].0@ == k;
            if i < s.len() - 1 {
                assert(s.drop_last()[i].0@ == k);
            }
        }
    }
}

/// No identity occurs twice in the list.
pub open spec fn unique_keys(s: Seq<(String, String)>) -> bool {
    forall|i: int, j: int| 0 <= i < j < s.len() ==> s[i].0@ != s[j].0@
}

pub proof fn lemma_entries_map_index(s: Seq<(String, String)>, i: int)
    requires
        unique_keys(s),
        0 <= i < s.len(),
    ensures
        entries_map(s).contains_key(s[i].0@),
        entries_map(s)[s[i].0@] == s[i].1@,
    decreases s.len(),
{
    if i == s.len() - 1 {
    } else {
        assert(unique_keys(s.drop_last())) by {
            assert(forall|a: int, b: int|
                0 <= a < b < s.drop_last().len() ==> s.drop_last()[a].0@ != s.drop_last()[b].0@);
        }
        lemma_entries_map_index(s.drop_last(), i);
        assert(s[i].0@ != s.last().0@);
    }
}

proof fn lemma_entries_map_remove_at(s: Seq<(String, String)>, i: int)
    requires
        unique_keys(s),
        0 <= i < s.len(),
    ensures
        entries_map(s.remove(i)) == entries_map(s).remove(s[i].0@),
    decreases s.len(),
{
    let k = s[i].0@;
    if i == s.len() - 1 {
        assert(s.remove(i) =~= s.drop_last());
        lemma_entries_map_contains(s.drop_last(), k);
        assert(forall|j: int| 0 <= j < s.drop_last().len() ==> s[j].0@ != k);
        assert(!entries_map(s.drop_last()).contains_key(k));
        assert(entries_map(s.drop_last()).insert(k, s.last().1@).remove(k) =~= entries_map(
            s.drop_last(),
        ));
    } else {
        assert(unique_keys(s.drop_last())) by {
            assert(forall|a: int, b: int|
                0 <= a < b < s.drop_last().len() ==> s.drop_last()[a].0@ != s.drop_last()[b].0@);
        }
        lemma_entries_map_remove_at(s.drop_last(), i);
        assert(s.remove(i).drop_last() =~= s.drop_last().remove(i));
        assert(s.remove(i).last() == s.last());
        assert(k != s.last().0@);
        assert(entries_map(s.remove(i)) == entries_map(s.drop_last().remove(i)).insert(
            s.last().0@,
            s.last().1@,
        ));
        assert(entries_map(s.drop_last()).remove(k).insert(s.last().0@, s.last().1@)
            =~= entries_map(s.drop_last()).insert(s.last().0@, s.last().1@).remove(k));
    }
}

/// The in-memory mapping from container identity to the service name
/// currently applied to the proxy for it.
#[derive(Debug, Clone)]
pub struct ServiceTracker {
    entries: Vec<(String, String)>,
}

impl View for ServiceTracker {
    type V = Map<Seq<char>, Seq<char>>;

    closed spec fn view(&self) -> Map<Seq<char>, Seq<char>> {
        entries_map(self.entries@)
    }
}

impl ServiceTracker {
    /// Each identity is tracked at most once.
    pub closed spec fn wf(&self) -> bool {
        unique_keys(self.entries@)
    }

    /// An empty tracker: nothing is believed applied.
    pub fn new() -> (r: ServiceTracker)
        ensures
            r.wf(),
            r@ == Map::<Seq<char>, Seq<char>>::empty(),
    {
        let r = ServiceTracker { entries: Vec::new() };
        proof {
            assert(r.entries@.len() == 0);
        }
        r
    }

    /// How many identities are tracked.
    pub fn count(&self) -> (r: usize)
        requires
            self.wf(),
        ensures
            r == self@.dom().len(),
    {
        proof {
            lemma_tracker_count(self.entries@);
        }
        self.entries.len()
    }

    /// The tracked service name for an identity, if any.
    pub fn get(&self, id: &str) -> (r: Option<&String>)
        requires
            self.wf(),
        ensures
            match r {
                Option::Some(v) => self@.contains_key(id@) && v@ == self@[id@],
                Option::None => !self@.contains_key(id@),
            },
    {
        let n = self.entries.len();
        let mut i: usize = 0;
        while i < n
            invariant
                self.wf(),
                n == self.entries@.len(),
                i <= n,
                forall|j: int| 0 <= j < i ==> self.entries@[j].0@ != id@,
            decreases n - i,
        {
            if crate::text::str_eq(self.entries[i].0.as_str(), id) {
                proof {
                    lemma_entries_map_index(self.entries@, i as int);
                }
                return Some(&self.entries[i].1);
            }
            i += 1;
        }
        proof {
            lemma_entries_map_contains(self.entries@, id@);
        }
        None
    }

    /// Removes and returns the tracked service name for an identity.
    pub fn remove_entry(&mut self, id: &str) -> (r: Option<String>)
        requires
            old(self).wf(),
        ensures
            final(self).wf(),
            final(self)@ == old(self)@.remove(id@),
            match r {
                Option::Some(v) => old(self)@.contains_key(id@) && v@ == old(self)@[id@],
                Option::None => !old(self)@.contains_key(id@) && final(self)@ == old(self)@,
            },
    {
        let n = self.entries.len();
        let mut i: usize = 0;
        while i < n
            invariant
                self.wf(),
                self.entries == old(self).entries,
                n == self.entries@.len(),
                i <= n,
                forall|j: int| 0 <= j < i ==> self.entries@[j].0@ != id@,
            decreases n - i,
        {
            if crate::text::str_eq(self.entries[i].0.as_str(), id) {
                proof {
                    lemma_entries_map_index(self.entries@, i as int);
                    lemma_entries_map_remove_at(self.entries@, i as int);
                    assert(forall|a: int, b: int|
                        0 <= a < b < self.entries@.remove(i as int).len()
                            ==> self.entries@.remove(i as int)[a].0@ != self.entries@.remove(
                            i as int,
                        )[b].0@);
                }
                let pair = self.entries.remove(i);
                return Some(pair.1);
            }
            i += 1;
        }
        proof {
            lemma_entries_map_contains(self.entries@, id@);
            assert(old(self)@.remove(id@) =~= old(self)@);
        }
        None
    }

    /// Records a successful application: the identity now maps to the
    /// service name, replacing any earlier entry.
    pub fn record(&mut self, id: String, service: String)
        requires
            old(self).wf(),
        ensures
            final(self).wf(),
            final(self)@ == old(self)@.insert(id@, service@),
    {
        let _ = self.remove_entry(id.as_str());
        let ghost removed = self.entries@;
        proof {
            lemma_entries_map_contains(removed, id@);
        }
        self.entries.push((id, service));
        proof {
            assert(self.entries@.drop_last() =~= removed);
            assert(entries_map(self.entries@) =~= old(self)@.insert(
                self.entries@.last().0@,
                self.entries@.last().1@,
            ));
            assert forall|a: int, b: int|
                0 <= a < b < self.entries@.len() implies self.entries@[a].0@
                != self.entries@[b].0@ by {
                if b == self.entries@.len() - 1 {
                    assert(!entries_map(removed).contains_key(self.entries@.last().0@));
                    lemma_entries_map_contains(removed, self.entries@.last().0@);
                }
            }
        }
    }
}

proof fn lemma_tracker_count(s: Seq<(String, String)>)
    requires
        unique_keys(s),
    ensures
        entries_map(s).dom().finite(),
        entries_map(s).dom().len() == s.len(),
    decreases s.len(),
{
    lemma_entries_map_contains(s, ""@);
    if s.len() > 0 {
        assert(unique_keys(s.drop_last())) by {
            assert(forall|a: int, b: int|
                0 <= a < b < s.drop_last().len() ==> s.drop_last()[a].0@ != s.drop_last()[b].0@);
        }
        lemma_tracker_count(s.drop_last());
        lemma_entries_map_contains(s.drop_last(), s.last().0@);
        assert(!entries_map(s.drop_last()).contains_key(s.last().0@));
        assert(entries_map(s).dom() =~= entries_map(s.drop_last()).dom().insert(s.last().0@));
    } else {
        assert(entries_map(s).dom() =~= Set::<Seq<char>>::empty());
    }
}

/// Whether the event's own attributes mark the container enabled.
pub open spec fn attrs_enabled(attrs: Seq<(String, String)>) -> bool {
    label_of(attrs, "pingap.enable"@) == Option::Some("true"@)
}

/// The service name the event's own attributes derive: the name-override
/// label, else the `name` attribute with every leading slash stripped.
pub open spec fn attrs_service_name(attrs: Seq<(String, String)>) -> Seq<char> {
    match label_of(attrs, "pingap.service.name"@) {
        Option::Some(v) => v,
        Option::None => strip_leading(
            match label_of(attrs, "name"@) {
                Option::Some(n) => n,
                Option::None => Seq::empty(),
            },
            '/',
        ),
    }
}

/// Records the outcome of one compile-and-apply attempt for a container:
/// only a successful application makes the identity tracked; a failed one
/// leaves the tracker unchanged.  This keeps the tracker's meaning — an
/// identity is tracked exactly while its last known action was a
/// successful application not yet retracted — a contract rather than a
/// caller's habit.
pub fn record_apply_outcome(
    tracker: &mut ServiceTracker,
    container_id: String,
    service_name: String,
    applied: bool,
)
    requires
        old(tracker).wf(),
    ensures
        final(tracker).wf(),
        applied ==> final(tracker)@ == old(tracker)@.insert(container_id@, service_name@),
        !applied ==> final(tracker)@ == old(tracker)@,
{
    if applied {
        tracker.record(container_id, service_name);
    }
}

/// Resolves which service name a stop/die event retracts, removing the
/// identity from the tracker when it was tracked.
///
/// The tracked entry is authoritative and always wins over the event's
/// attributes; only for an untracked identity are the attributes
/// consulted, and only when they mark the container enabled is a
/// retraction attempted at all.
pub fn resolve_retraction(
    tracker: &mut ServiceTracker,
    container_id: &str,
    attributes: &Vec<(String, String)>,
) -> (r: Option<String>)
    requires
        old(tracker).wf(),
    ensures
        final(tracker).wf(),
        final(tracker)@ == old(tracker)@.remove(container_id@),
        match r {
            Option::Some(name) => if old(tracker)@.contains_key(container_id@) {
                name@ == old(tracker)@[container_id@]
            } else {
                attrs_enabled(attributes@) && name@ == attrs_service_name(attributes@)
            },
            Option::None => !old(tracker)@.contains_key(container_id@) && !attrs_enabled(
                attributes@,
            ),
        },
{
    match tracker.remove_entry(container_id) {
        Some(name) => Some(name),
        None => {
            let enabled = match crate::compile::assoc_get(attributes, "pingap.enable") {
                Some(v) => crate::text::str_eq(v.as_str(), "true"),
                None => false,
            };
            if enabled {
                match crate::compile::assoc_get(attributes, "pingap.service.name") {
                    Some(v) => Some(v.clone()),
                    None => {
                        let raw = match crate::compile::assoc_get(attributes, "name") {
                            Some(n) => n.clone(),
                            None => String::new(),
                        };
                        Some(crate::text::strip_leading_char(raw.as_str(), '/'))
                    },
                }
            } else {
                None
            }
        },
    }
}

} // verus!
