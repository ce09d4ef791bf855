use vstd::prelude::*;

use crate::control::{Control, ControlView};

verus! {

/// One event that the native layer delivers through its callbacks.
#[derive(Debug)]
pub enum Event {
    /// A control was described (or described again), with its current level.
    Description { address: u32, control: Control },
    /// The level of a control changed.
    Value { address: u32, value: u8 },
}

/// An event as plain mathematical values.
pub enum EventView {
    Description { address: u32, control: ControlView },
    Value { address: u32, value: u8 },
}

impl View for Event {
    type V = EventView;

    open spec fn view(&self) -> EventView {
        match self {
            Event::Description { address, control } => EventView::Description {
                address: *address,
                control: control@,
            },
            Event::Value { address, value } => EventView::Value { address: *address, value: *value },
        }
    }
}

impl EventView {
    pub open spec fn address(self) -> u32 {
        match self {
            EventView::Description { address, .. } => address,
            EventView::Value { address, .. } => address,
        }
    }

    /// The level that the event carries.
    pub open spec fn level(self) -> u8 {
        match self {
            EventView::Description { control, .. } => control.value,
            EventView::Value { value, .. } => value,
        }
    }

    pub open spec fn is_description(self) -> bool {
        self is Description
    }
}

/// The registry after one event: a description inserts or replaces the whole
/// control, a level change touches only a control that was described.
pub open spec fn after_event(m: Map<u32, ControlView>, e: EventView) -> Map<u32, ControlView> {
    match e {
        EventView::Description { address, control } => m.insert(address, control),
        EventView::Value { address, value } => if m.contains_key(address) {
            m.insert(address, m[address].with_value(value))
        } else {
            m
        },
    }
}

/// The control handed to the observer after one event, if any.
pub open spec fn notice_of(m: Map<u32, ControlView>, e: EventView) -> Option<ControlView> {
    match e {
        EventView::Description { .. } => None,
        EventView::Value { address, value } => if m.contains_key(address) {
            Some(m[address].with_value(value))
        } else {
            None
        },
    }
}

/// The registry `m` after a whole sequence of events, in order.
pub open spec fn replay_from(m: Map<u32, ControlView>, events: Seq<EventView>) -> Map<u32, ControlView>
    decreases events.len(),
{
    if events.len() == 0 {
        m
    } else {
        after_event(replay_from(m, events.drop_last()), events.last())
    }
}

/// The registry after a whole sequence of events, starting empty.
pub open spec fn replay(events: Seq<EventView>) -> Map<u32, ControlView> {
    replay_from(Map::empty(), events)
}

/// The views of a sequence of events.
pub open spec fn views_of(events: Seq<Event>) -> Seq<EventView> {
    events.map_values(|e: Event| e@)
}

/// Whether some event of the sequence describes `a`.
pub open spec fn described(events: Seq<EventView>, a: u32) -> bool {
    exists|i: int| 0 <= i < events.len() && #[trigger] events[i].is_description() && events[i].address() == a
}

/// Whether `i` is the position of the last event of the sequence about `a`.
pub open spec fn is_last_about(events: Seq<EventView>, a: u32, i: int) -> bool {
    &&& 0 <= i < events.len()
    &&& events[i].address() == a
    &&& forall|j: int| i < j < events.len() ==> #[trigger] events[j].address() != a
}

/// Whether `i` is the position of the last description of `a`.
pub open spec fn is_last_description_of(events: Seq<EventView>, a: u32, i: int) -> bool {
    &&& 0 <= i < events.len()
    &&& events[i].is_description()
    &&& events[i].address() == a
    &&& forall|j: int|
        i < j < events.len() ==> !(#[trigger] events[j].is_description() && events[j].address() == a)
}

/// Replaying events leaves exactly the described addresses in the registry,
/// each with the metadata of its last description and the level of the last
/// event about it, whatever the interleaving of descriptions and levels.
pub proof fn lemma_replay_reflects_events(events: Seq<EventView>, a: u32)
    ensures
        replay(events).contains_key(a) <==> described(events, a),
        described(events, a) ==> exists|i: int| #[trigger]
            is_last_about(events, a, i) && replay(events)[a].value == events[i].level(),
        described(events, a) ==> exists|i: int| #[trigger]
            is_last_description_of(events, a, i) && ({
                let c = events[i]->Description_control;
                let r = replay(events)[a];
                r.group == c.group && r.name == c.name && r.func == c.func
            }),
    decreases events.len(),
{
    if events.len() > 0 {
        let prev = events.drop_last();
        let e = events.last();
        let n = events.len() - 1;
        lemma_replay_reflects_events(prev, a);
        assert(forall|j: int| 0 <= j < n ==> #[trigger] events[j] == prev[j]);
        if described(prev, a) {
            let k = choose|k: int| 0 <= k < prev.len() && #[trigger] prev[k].is_description() && prev[k].address() == a;
            assert(events[k] == prev[k]);
        }
        if described(events, a) {
            let k = choose|k: int| 0 <= k < events.len() && #[trigger] events[k].is_description() && events[k].address() == a;
            if k < n {
                assert(prev[k] == events[k]);
            }
        }
        if e.address() == a {
            assert(is_last_about(events, a, n));
            if e.is_description() {
                assert(is_last_description_of(events, a, n));
            } else if described(events, a) {
                let i = choose|i: int| #[trigger] is_last_description_of(prev, a, i) && ({
                    let c = prev[i]->Description_control;
                    let r = replay(prev)[a];
                    r.group == c.group && r.name == c.name && r.func == c.func
                });
                assert(is_last_description_of(events, a, i));
            }
        } else if described(events, a) {
            let i = choose|i: int| #[trigger] is_last_about(prev, a, i) && replay(prev)[a].value == prev[i].level();
            assert(is_last_about(events, a, i));
            let j = choose|j: int| #[trigger] is_last_description_of(prev, a, j) && ({
                let c = prev[j]->Description_control;
                let r = replay(prev)[a];
                r.group == c.group && r.name == c.name && r.func == c.func
            });
            assert(is_last_description_of(events, a, j));
        }
    }
}

/// The addresses in the registry after a sequence of events are exactly
/// those that some event of it describes.
pub proof fn lemma_replay_keys(events: Seq<EventView>)
    ensures
        replay(events).dom() == Set::new(|a: u32| described(events, a)),
{
    assert forall|a: u32| replay(events).dom().contains(a) <==> described(events, a) by {
        lemma_replay_reflects_events(events, a);
    }
    assert(replay(events).dom() =~= Set::new(|a: u32| described(events, a)));
}

/// A level change for an address that was never described leaves the
/// registry as it was and notifies nobody.
pub proof fn lemma_unknown_level_is_ignored(m: Map<u32, ControlView>, address: u32, value: u8)
    requires
        !m.contains_key(address),
    ensures
        after_event(m, EventView::Value { address, value }) == m,
        notice_of(m, EventView::Value { address, value }) is None,
{
}

/// What the observer is shown for a level change is the control as it stands
/// right after that event, and nothing that a later event brings.
pub proof fn lemma_notice_is_state_after_event(m: Map<u32, ControlView>, e: EventView)
    ensures
        notice_of(m, e) matches Some(c) ==> after_event(m, e).contains_key(e.address())
            && after_event(m, e)[e.address()] == c && c.value == e.level(),
{
}

/// One control of the registry and the address it is kept under.
struct Entry {
    address: u32,
    control: Control,
}

/// The controls currently known, keyed by address.
///
/// Each address occurs at most once; the order of the entries carries no
/// meaning.
pub struct Registry {
    entries: Vec<Entry>,
}

impl View for Registry {
    type V = Map<u32, ControlView>;

    closed spec fn view(&self) -> Map<u32, ControlView> {
        Map::new(
            |a: u32| exists|i: int| 0 <= i < self.entries.len() && #[trigger] self.entries[i].address == a,
            |a: u32| self.entries[self.index_of(a)].control@,
        )
    }
}

impl Registry {
    spec fn index_of(&self, a: u32) -> int {
        choose|i: int| 0 <= i < self.entries.len() && #[trigger] self.entries[i].address == a
    }

    /// The entries hold each address at most once.
    pub closed spec fn wf(&self) -> bool {
        forall|i: int, j: int|
            0 <= i < j < self.entries.len() ==> #[trigger] self.entries[i].address
                != #[trigger] self.entries[j].address
    }

    proof fn lemma_entry_in_view(&self, i: int)
        requires
            self.wf(),
            0 <= i < self.entries.len(),
        ensures
            self@.contains_key(self.entries[i].address),
            self@[self.entries[i].address] == self.entries[i].control@,
    {
        let a = self.entries[i].address;
        assert(self@.contains_key(a));
        let k = self.index_of(a);
        assert(self.entries[k].address == a);
        if k != i {
            if k < i {
                assert(self.entries[k].address != self.entries[i].address);
            } else {
                assert(self.entries[i].address != self.entries[k].address);
            }
        }
    }

    /// An empty registry.
    pub fn new() -> (r: Registry)
        ensures
            r.wf(),
            r@ == Map::<u32, ControlView>::empty(),
    {
        let r = Registry { entries: Vec::new() };
        assert(r@ =~= Map::<u32, ControlView>::empty());
        r
    }

    /// The position of `address` among the entries, if it is there.
    fn find(&self, address: u32) -> (r: Option<usize>)
        requires
            self.wf(),
        ensures
            r matches Some(i) ==> i < self.entries.len() && self.entries[i as int].address == address,
            r is None ==> !self@.contains_key(address),
    {
        let mut i: usize = 0;
        while i < self.entries.len()
            invariant
                i <= self.entries.len(),
                forall|j: int| 0 <= j < i ==> #[trigger] self.entries[j].address != address,
            decreases self.entries.len() - i,
        {
            if self.entries[i].address == address {
                return Some(i);
            }
            i = i + 1;
        }
        None
    }

    /// Inserts or replaces the whole control kept under `address`.
    pub fn upsert_description(&mut self, address: u32, control: Control)
        requires
            old(self).wf(),
        ensures
            final(self).wf(),
            final(self)@ == old(self)@.insert(address, control@),
    {
        let ghost pre = self@;
        let ghost cv = control@;
        match self.find(address) {
            Some(i) => {
                self.entries.set(i, Entry { address, control });
                proof {
                    assert forall|a: u32| #[trigger] self@.contains_key(a) <==> pre.insert(address, cv).contains_key(a) by {
                        if pre.contains_key(a) && a != address {
                            let k = choose|k: int| 0 <= k < old(self).entries.len() && #[trigger] old(self).entries[k].address == a;
                            assert(self.entries[k].address == a);
                        }
                        if a == address {
                            assert(self.entries[i as int].address == a);
                        }
                        if self@.contains_key(a) {
                            let k = choose|k: int| 0 <= k < self.entries.len() && #[trigger] self.entries[k].address == a;
                            if k != i {
                                assert(old(self).entries[k].address == a);
                            }
                        }
                    }
                    assert forall|a: u32| #[trigger] self@.contains_key(a) implies self@[a] == pre.insert(address, cv)[a] by {
                        let k = self.index_of(a);
                        self.lemma_entry_in_view(k);
                        if a != address {
                            assert(k != i);
                            old(self).lemma_entry_in_view(k);
                        }
                    }
                    assert(self@ =~= pre.insert(address, cv));
                }
            },
            None => {
                self.entries.push(Entry { address, control });
                proof {
                    let n = old(self).entries.len() as int;
                    assert forall|a: u32| #[trigger] self@.contains_key(a) <==> pre.insert(address, cv).contains_key(a) by {
                        if pre.contains_key(a) {
                            let k = choose|k: int| 0 <= k < old(self).entries.len() && #[trigger] old(self).entries[k].address == a;
                            assert(self.entries[k].address == a);
                        }
                        if a == address {
                            assert(self.entries[n].address == a);
                        }
                        if self@.contains_key(a) {
                            let k = choose|k: int| 0 <= k < self.entries.len() && #[trigger] self.entries[k].address == a;
                            if k != n {
                                assert(old(self).entries[k].address == a);
                            }
                        }
                    }
                    assert forall|a: u32| #[trigger] self@.contains_key(a) implies self@[a] == pre.insert(address, cv)[a] by {
                        let k = self.index_of(a);
                        self.lemma_entry_in_view(k);
                        if a != address {
                            assert(k != n);
                            old(self).lemma_entry_in_view(k);
                        }
                    }
                    assert(self@ =~= pre.insert(address, cv));
                }
            },
        }
    }
}

impl Registry {
    /// Sets the level of the control kept under `address`, if one was
    /// described, and hands back that control as it now stands; an address
    /// that was never described changes nothing and hands back nothing.
    pub fn update_value(&mut self, address: u32, value: u8) -> (r: Option<Control>)
        requires
            old(self).wf(),
        ensures
            final(self).wf(),
            final(self)@ == after_event(old(self)@, EventView::Value { address, value }),
            r matches Some(c) ==> Some(c@) == notice_of(old(self)@, EventView::Value { address, value }),
            r is None ==> notice_of(old(self)@, EventView::Value { address, value }) is None,
    {
        match self.find(address) {
            Some(i) => {
                proof {
                    self.lemma_entry_in_view(i as int);
                }
                let mut c = self.entries[i].control.clone();
                c.value = value;
                let notice = c.clone();
                self.upsert_description(address, c);
                Some(notice)
            },
            None => None,
        }
    }

    /// Applies one event delivered by the native layer, and hands back the
    /// control that the observer is to be shown for it, if any.
    pub fn apply(&mut self, event: Event) -> (r: Option<Control>)
        requires
            old(self).wf(),
        ensures
            final(self).wf(),
            final(self)@ == after_event(old(self)@, event@),
            r matches Some(c) ==> Some(c@) == notice_of(old(self)@, event@),
            r is None ==> notice_of(old(self)@, event@) is None,
    {
        match event {
            Event::Description { address, control } => {
                self.upsert_description(address, control);
                None
            },
            Event::Value { address, value } => self.update_value(address, value),
        }
    }

    /// A copy of every control currently known, one per address, in no
    /// particular order.
    pub fn snapshot(&self) -> (r: Vec<Control>)
        requires
            self.wf(),
        ensures
            r.len() == self@.dom().len(),
            exists|keys: Seq<u32>| #[trigger] keys.len() == r.len() && keys.no_duplicates()
                && (forall|a: u32| self@.contains_key(a) <==> #[trigger] keys.contains(a))
                && (forall|i: int| 0 <= i < r.len() ==> #[trigger] r[i]@ == self@[keys[i]]),
    {
        let mut r: Vec<Control> = Vec::new();
        let mut i: usize = 0;
        while i < self.entries.len()
            invariant
                self.wf(),
                i <= self.entries.len(),
                r.len() == i,
                forall|j: int| 0 <= j < i ==> #[trigger] r[j]@ == self.entries[j].control@,
            decreases self.entries.len() - i,
        {
            r.push(self.entries[i].control.clone());
            i = i + 1;
        }
        let ghost keys = Seq::new(r.len() as nat, |j: int| self.entries[j].address);
        proof {
            assert forall|a: u32| self@.contains_key(a) <==> #[trigger] keys.contains(a) by {
                if self@.contains_key(a) {
                    let k = choose|k: int| 0 <= k < self.entries.len() && #[trigger] self.entries[k].address == a;
                    assert(keys[k] == a);
                }
                if keys.contains(a) {
                    let k = choose|k: int| 0 <= k < keys.len() && keys[k] == a;
                    assert(self.entries[k].address == a);
                }
            }
            assert forall|j: int| 0 <= j < r.len() implies #[trigger] r[j]@ == self@[keys[j]] by {
                self.lemma_entry_in_view(j);
            }
            assert forall|x: int, y: int| 0 <= x < keys.len() && 0 <= y < keys.len() && x != y implies keys[x] != keys[y] by {
                if x < y {
                    assert(self.entries[x].address != self.entries[y].address);
                } else {
                    assert(self.entries[y].address != self.entries[x].address);
                }
            }
            assert(keys.len() == r.len());
            assert(keys.to_set() =~= self@.dom());
            keys.unique_seq_to_set();
        }
        r
    }

    /// Applies a sequence of events in the order they were delivered.
    pub fn apply_all(&mut self, events: Vec<Event>)
        requires
            old(self).wf(),
        ensures
            final(self).wf(),
            final(self)@ == replay_from(old(self)@, views_of(events@)),
    {
        let ghost all = views_of(events@);
        let ghost start = self@;
        let mut rest = events;
        let ghost mut i: int = 0;
        while rest.len() > 0
            invariant
                self.wf(),
                0 <= i <= all.len(),
                views_of(rest@) == all.skip(i),
                self@ == replay_from(start, all.take(i)),
            decreases rest.len(),
        {
            proof {
                assert(all.skip(i).len() > 0);
                assert(all[i] == views_of(rest@)[0]);
            }
            let ghost before = rest@;
            let e = rest.remove(0);
            self.apply(e);
            proof {
                assert(all.take(i + 1).drop_last() =~= all.take(i));
                assert(rest@ =~= before.drop_first());
                assert forall|k: int| 0 <= k < rest.len() implies #[trigger] views_of(rest@)[k] == all.skip(i + 1)[k] by {
                    assert(views_of(before)[k + 1] == all.skip(i)[k + 1]);
                }
                assert(views_of(rest@) =~= all.skip(i + 1));
                i = i + 1;
            }
        }
        proof {
            assert(all.take(i) =~= all);
        }
    }
}

} // verus!
