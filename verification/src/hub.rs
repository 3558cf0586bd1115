//! The devices that subscribers to the event stream know of.
//!
//! A subscriber first gets the devices that are there, as `added` events, and then
//! what happens from then on. It is subscribed before it gets the devices, so that it
//! misses nothing; it may get an `added` event twice, and takes the second as an
//! update.

use std::collections::HashMap;
use std::hash::Hash;

use vstd::prelude::*;

use crate::events::{encode_line, AddedDevice, AddedRecord, EventLine, EventRecord};
use crate::host::{DeviceInfo, UsbDevice};

verus! {

/// How many events a subscriber may be behind before it misses some.
pub const EVENT_BUFFER: usize = 256;

/// Which bus identifier was announced for each device that is there. A device that
/// leaves is only known by its `Id`.
#[derive(Debug)]
pub struct IdMap<Id: Eq + Hash> {
    by_id: HashMap<Id, String>,
}

impl<Id: Eq + Hash> View for IdMap<Id> {
    type V = Map<Id, Seq<char>>;

    closed spec fn view(&self) -> Map<Id, Seq<char>> {
        self.by_id@.map_values(|s: String| s@)
    }
}

impl<Id: Eq + Hash> Default for IdMap<Id> {
    fn default() -> (m: IdMap<Id>)
        ensures
            m@ == Map::<Id, Seq<char>>::empty(),
    {
        let m = IdMap { by_id: HashMap::new() };
        assert(m@ =~= Map::<Id, Seq<char>>::empty());
        m
    }
}

impl<Id: Eq + Hash> IdMap<Id> {
    /// No device is there.
    pub fn new() -> (m: IdMap<Id>)
        ensures
            m@ == Map::<Id, Seq<char>>::empty(),
    {
        Self::default()
    }

    /// The device `id` is there, announced as `busid`.
    pub fn note_added(&mut self, id: Id, busid: String)
        ensures
            vstd::std_specs::hash::obeys_key_model::<Id>() ==> final(self)@ == old(self)@.insert(
                id,
                busid@,
            ),
    {
        broadcast use vstd::std_specs::hash::group_hash_axioms;

        self.by_id.insert(id, busid);
        proof {
            if vstd::std_specs::hash::obeys_key_model::<Id>() {
                assert(self@ =~= old(self)@.insert(id, busid@));
            }
        }
    }

    /// The device `id` has left: what it was announced as, if it was.
    pub fn note_removed(&mut self, id: &Id) -> (r: Option<String>)
        ensures
            vstd::std_specs::hash::obeys_key_model::<Id>() ==> final(self)@ == old(self)@.remove(
                *id,
            ) && crate::host::opt_text(r) == if old(self)@.contains_key(*id) {
                Some(old(self)@[*id])
            } else {
                None
            },
    {
        broadcast use vstd::std_specs::hash::group_hash_axioms;

        let r: Option<String> = self.by_id.remove(id);
        proof {
            if vstd::std_specs::hash::obeys_key_model::<Id>() {
                assert(self@ =~= old(self)@.remove(*id));
            }
        }
        r
    }

    /// How many devices are there.
    pub fn len(&self) -> (n: usize)
        ensures
            self@.dom().finite(),
            vstd::std_specs::hash::obeys_key_model::<Id>() ==> n == self@.dom().len(),
    {
        broadcast use vstd::std_specs::hash::group_hash_axioms;

        assert(self@.dom() =~= self.by_id@.dom());
        self.by_id.len()
    }
}

/// A map knows finitely many devices.
pub proof fn ids_are_finite<Id: Eq + Hash>(ids: IdMap<Id>)
    ensures
        ids@.dom().finite(),
{
    broadcast use vstd::std_specs::hash::group_hash_axioms;

    assert(ids@.dom() =~= ids.by_id@.dom());
}

/// A device that is noted is known by what was noted last, the others are known as
/// before, and there is one more of them if it was unknown. When it is removed, what is
/// left is what was known of the others.
pub proof fn noted_device_is_known<Id: Eq + Hash>(ids: IdMap<Id>, id: Id, busid: Seq<char>)
    ensures
        ({
            let after = ids@.insert(id, busid);
            &&& after.contains_key(id)
            &&& after[id] == busid
            &&& forall|other: Id|
                other != id ==> #[trigger] after.contains_key(other) == ids@.contains_key(other)
                    && (ids@.contains_key(other) ==> after[other] == ids@[other])
            &&& after.dom().len() == if ids@.contains_key(id) {
                ids@.dom().len()
            } else {
                ids@.dom().len() + 1
            }
            &&& after.remove(id) == ids@.remove(id)
        }),
{
    ids_are_finite(ids);
    let after = ids@.insert(id, busid);
    assert(after.dom() =~= ids@.dom().insert(id));
    if ids@.contains_key(id) {
        assert(ids@.dom().insert(id) =~= ids@.dom());
    }
    assert(after.remove(id) =~= ids@.remove(id));
}

/// A device that is removed is forgotten, the others are known as before, and there is
/// one less of them if it was known. Removing an unknown device changes nothing.
pub proof fn removed_device_is_forgotten<Id: Eq + Hash>(ids: IdMap<Id>, id: Id)
    ensures
        ({
            let after = ids@.remove(id);
            &&& !after.contains_key(id)
            &&& forall|other: Id|
                other != id ==> #[trigger] after.contains_key(other) == ids@.contains_key(other)
                    && (ids@.contains_key(other) ==> after[other] == ids@[other])
            &&& ids@.contains_key(id) ==> after.dom().len() == ids@.dom().len() - 1
            &&& !ids@.contains_key(id) ==> after == ids@
            &&& after.remove(id) == after
        }),
{
    ids_are_finite(ids);
    let after = ids@.remove(id);
    assert(after.dom() =~= ids@.dom().remove(id));
    if !ids@.contains_key(id) {
        assert(after =~= ids@);
    }
    assert(after.remove(id) =~= after);
}

/// What someone who follows the events knows after `e`, if they knew `m` before.
pub open spec fn learn(m: Map<Seq<char>, AddedRecord>, e: EventRecord) -> Map<
    Seq<char>,
    AddedRecord,
> {
    match e {
        EventRecord::Added(d) => m.insert(d.busid, d),
        EventRecord::Removed { busid } => m.remove(busid),
    }
}

/// What someone who follows the events knows after all of `events`.
pub open spec fn learn_all(m: Map<Seq<char>, AddedRecord>, events: Seq<EventRecord>) -> Map<
    Seq<char>,
    AddedRecord,
>
    decreases events.len(),
{
    if events.len() == 0 {
        m
    } else {
        learn(learn_all(m, events.drop_last()), events.last())
    }
}

/// The devices `list` as events.
pub open spec fn as_events(list: Seq<AddedRecord>) -> Seq<EventRecord> {
    list.map_values(|d: AddedRecord| EventRecord::Added(d))
}

/// The contents of each event of `list`.
pub open spec fn event_records(list: Seq<EventLine>) -> Seq<EventRecord> {
    list.map_values(|e: EventLine| e@)
}

/// No two devices of `list` have the same bus identifier.
pub open spec fn distinct(list: Seq<AddedRecord>) -> bool {
    forall|i: int, j: int|
        0 <= i < j < list.len() ==> (#[trigger] list[i]).busid != (#[trigger] list[j]).busid
}

proof fn learned_devices(list: Seq<AddedRecord>)
    requires
        distinct(list),
    ensures
        forall|i: int|
            0 <= i < list.len() ==> learn_all(Map::empty(), as_events(list)).contains_key(
                (#[trigger] list[i]).busid,
            ) && learn_all(Map::empty(), as_events(list))[list[i].busid] == list[i],
        forall|b: Seq<char>| #[trigger]
            learn_all(Map::empty(), as_events(list)).contains_key(b) ==> exists|i: int|
                0 <= i < list.len() && (#[trigger] list[i]).busid == b,
    decreases list.len(),
{
    if list.len() > 0 {
        let before = list.drop_last();
        let n = list.len() - 1;
        assert forall|i: int, j: int| 0 <= i < j < before.len() implies (
        #[trigger] before[i]).busid != (#[trigger] before[j]).busid by {
            assert(list[i].busid != list[j].busid);
        }
        learned_devices(before);
        assert(as_events(list).drop_last() =~= as_events(before));
        assert(as_events(list).last() == EventRecord::Added(list[n]));
        let m = learn_all(Map::empty(), as_events(before));
        let all = learn_all(Map::empty(), as_events(list));
        assert(all == m.insert(list[n].busid, list[n]));
        assert forall|i: int| 0 <= i < list.len() implies all.contains_key(
            (#[trigger] list[i]).busid,
        ) && all[list[i].busid] == list[i] by {
            if i < n {
                assert(before[i] == list[i]);
                assert(list[i].busid != list[n].busid);
            }
        }
        assert forall|b: Seq<char>| #[trigger] all.contains_key(b) implies exists|i: int|
            0 <= i < list.len() && (#[trigger] list[i]).busid == b by {
            if b == list[n].busid {
            } else {
                assert(m.contains_key(b));
                let i = choose|i: int| 0 <= i < before.len() && (#[trigger] before[i]).busid == b;
                assert(list[i].busid == b);
            }
        }
    }
}

/// The devices that are there, as subscribers are told of them.
#[derive(Debug)]
pub struct Hub {
    devices: Vec<AddedDevice>,
}

impl View for Hub {
    type V = Map<Seq<char>, AddedRecord>;

    closed spec fn view(&self) -> Map<Seq<char>, AddedRecord> {
        learn_all(Map::empty(), as_events(crate::events::added_records(self.devices@)))
    }
}

impl Hub {
    /// No bus identifier is there twice.
    pub closed spec fn wf(&self) -> bool {
        distinct(crate::events::added_records(self.devices@))
    }

    /// No device is there.
    pub fn new() -> (h: Hub)
        ensures
            h.wf(),
            h@ == Map::<Seq<char>, AddedRecord>::empty(),
    {
        Hub { devices: Vec::new() }
    }

    /// Forgets the device `busid`.
    fn forget(&mut self, busid: &String)
        requires
            old(self).wf(),
        ensures
            final(self).wf(),
            final(self)@ == old(self)@.remove(busid@),
            forall|i: int|
                0 <= i < final(self).devices@.len() ==> (#[trigger] final(self).devices@[i]).busid@
                    != busid@,
    {
        let ghost list = crate::events::added_records(self.devices@);
        let ghost whole = self@;
        proof {
            learned_devices(list);
        }
        let mut i: usize = 0;
        while i < self.devices.len()
            invariant
                i <= self.devices@.len(),
                self.devices@ == old(self).devices@,
                list == crate::events::added_records(self.devices@),
                distinct(list),
                whole == self@,
                whole == learn_all(Map::empty(), as_events(list)),
                forall|i: int|
                    0 <= i < list.len() ==> whole.contains_key((#[trigger] list[i]).busid)
                        && whole[list[i].busid] == list[i],
                forall|b: Seq<char>| #[trigger]
                    whole.contains_key(b) ==> exists|i: int|
                        0 <= i < list.len() && (#[trigger] list[i]).busid == b,
                forall|k: int| 0 <= k < i ==> (#[trigger] list[k]).busid != busid@,
            decreases self.devices@.len() - i,
        {
            if self.devices[i].busid == *busid {
                assert(list[i as int].busid == busid@);
                self.devices.remove(i);
                proof {
                    let left = crate::events::added_records(self.devices@);
                    assert(left =~= list.remove(i as int));
                    assert forall|a: int, b: int| 0 <= a < b < left.len() implies (
                    #[trigger] left[a]).busid != (#[trigger] left[b]).busid by {
                        let a0 = if a < i {
                            a
                        } else {
                            a + 1
                        };
                        let b0 = if b < i {
                            b
                        } else {
                            b + 1
                        };
                        assert(left[a] == list[a0]);
                        assert(left[b] == list[b0]);
                    }
                    learned_devices(left);
                    assert forall|b: Seq<char>| self@.contains_key(b) == whole.remove(
                        busid@,
                    ).contains_key(b) && (self@.contains_key(b) ==> self@[b] == whole[b]) by {
                        if self@.contains_key(b) {
                            let a = choose|a: int|
                                0 <= a < left.len() && (#[trigger] left[a]).busid == b;
                            let a0 = if a < i {
                                a
                            } else {
                                a + 1
                            };
                            assert(left[a] == list[a0]);
                            assert(list[a0].busid != list[i as int].busid);
                        }
                        if whole.remove(busid@).contains_key(b) {
                            assert(whole.contains_key(b));
                            let a0 = choose|a: int|
                                0 <= a < list.len() && (#[trigger] list[a]).busid == b;
                            let a = if a0 < i {
                                a0
                            } else {
                                a0 - 1
                            };
                            assert(left[a] == list[a0]);
                        }
                    }
                    assert(self@ =~= whole.remove(busid@));
                    assert forall|a: int| 0 <= a < self.devices@.len() implies (
                    #[trigger] self.devices@[a]).busid@ != busid@ by {
                        assert(left[a].busid == self.devices@[a].busid@);
                        let a0 = if a < i {
                            a
                        } else {
                            a + 1
                        };
                        assert(left[a] == list[a0]);
                        assert(list[a0].busid != list[i as int].busid);
                    }
                }
                return;
            }
            i += 1;
        }
        assert(self@ =~= whole.remove(busid@));
        assert forall|a: int| 0 <= a < self.devices@.len() implies (
        #[trigger] self.devices@[a]).busid@ != busid@ by {
            assert(list[a].busid == self.devices@[a].busid@);
        }
    }

    /// The device `dev` is there, or has changed: the event to send to subscribers.
    pub fn publish_added(&mut self, dev: AddedDevice) -> (e: EventLine)
        requires
            old(self).wf(),
        ensures
            final(self).wf(),
            e@ == EventRecord::Added(dev@),
            final(self)@ == learn(old(self)@, e@),
    {
        let copy: AddedDevice = dev.copy();
        self.forget(&dev.busid);
        let ghost list = crate::events::added_records(self.devices@);
        let ghost forgotten = self@;
        assert forall|i: int| 0 <= i < list.len() implies (#[trigger] list[i]).busid
            != dev.busid@ by {
            assert(list[i].busid == self.devices@[i].busid@);
        }
        self.devices.push(copy);
        proof {
            let more = crate::events::added_records(self.devices@);
            assert(more =~= list.push(dev@));
            assert(as_events(more).drop_last() =~= as_events(list));
            assert(as_events(more).last() == EventRecord::Added(dev@));
            assert(self@ == forgotten.insert(dev.busid@, dev@));
            assert(self@ =~= old(self)@.insert(dev.busid@, dev@));
        }
        EventLine::Added(dev)
    }

    /// The device `busid` has left: the event to send to subscribers.
    pub fn publish_removed(&mut self, busid: String) -> (e: EventLine)
        requires
            old(self).wf(),
        ensures
            final(self).wf(),
            e@ == (EventRecord::Removed { busid: busid@ }),
            final(self)@ == learn(old(self)@, e@),
    {
        self.forget(&busid);
        EventLine::Removed { busid }
    }

    /// The devices that are there, each once, as events.
    pub fn snapshot_added(&self) -> (r: Vec<EventLine>)
        requires
            self.wf(),
        ensures
            is_snapshot(self@, event_records(r@)),
    {
        let ghost list = crate::events::added_records(self.devices@);
        let mut r: Vec<EventLine> = Vec::new();
        let mut i: usize = 0;
        while i < self.devices.len()
            invariant
                i <= self.devices@.len(),
                list == crate::events::added_records(self.devices@),
                event_records(r@) == as_events(list).take(i as int),
            decreases self.devices@.len() - i,
        {
            let ghost before = r@;
            r.push(EventLine::Added(self.devices[i].copy()));
            assert(event_records(r@) =~= event_records(before).push(EventRecord::Added(
                list[i as int],
            )));
            i += 1;
            assert(as_events(list).take(i as int) =~= as_events(list).take(i - 1).push(
                as_events(list)[i - 1],
            ));
        }
        proof {
            assert(as_events(list).take(i as int) =~= as_events(list));
            learned_devices(list);
            let events = event_records(r@);
            assert forall|k: int| 0 <= k < events.len() implies (#[trigger] events[k]) is Added
                && self@.contains_key(events[k].about()) && events[k] == EventRecord::Added(
                self@[events[k].about()],
            ) by {
                assert(events[k] == EventRecord::Added(list[k]));
            }
            assert forall|a: int, b: int| 0 <= a < b < events.len() implies (
            #[trigger] events[a]).about() != (#[trigger] events[b]).about() by {
                assert(events[a] == EventRecord::Added(list[a]));
                assert(events[b] == EventRecord::Added(list[b]));
            }
            assert forall|b: Seq<char>| #[trigger] self@.contains_key(b) implies exists|k: int|
                0 <= k < events.len() && (#[trigger] events[k]).about() == b by {
                let k = choose|k: int| 0 <= k < list.len() && (#[trigger] list[k]).busid == b;
                assert(events[k] == EventRecord::Added(list[k]));
            }
        }
        r
    }
}

/// `events` announce each device of `m` once and nothing else.
pub open spec fn is_snapshot(
    m: Map<Seq<char>, AddedRecord>,
    events: Seq<EventRecord>,
) -> bool {
    &&& forall|k: int|
        0 <= k < events.len() ==> (#[trigger] events[k]) is Added && m.contains_key(
            events[k].about(),
        ) && events[k] == EventRecord::Added(m[events[k].about()])
    &&& forall|a: int, b: int|
        0 <= a < b < events.len() ==> (#[trigger] events[a]).about() != (
        #[trigger] events[b]).about()
    &&& forall|b: Seq<char>| #[trigger]
        m.contains_key(b) ==> exists|k: int|
            0 <= k < events.len() && (#[trigger] events[k]).about() == b
}

/// The device `id` has come, as `info` describes it: the event to send to subscribers.
pub fn connected<Id: Eq + Hash>(
    ids: &mut IdMap<Id>,
    hub: &mut Hub,
    id: Id,
    info: &DeviceInfo,
) -> (e: EventLine)
    requires
        old(hub).wf(),
    ensures
        final(hub).wf(),
        e@ == EventRecord::Added(crate::events::added_record(info.record())),
        final(hub)@ == learn(old(hub)@, e@),
        vstd::std_specs::hash::obeys_key_model::<Id>() ==> final(ids)@ == old(ids)@.insert(
            id,
            info.record().busid,
        ),
{
    let dev: UsbDevice = UsbDevice::from_info(info);
    let added: AddedDevice = AddedDevice::from_host(&dev);
    ids.note_added(id, added.busid.clone());
    hub.publish_added(added)
}

/// The device `id` has left: the event to send to subscribers. Of a device that was
/// never announced they are told nothing.
pub fn disconnected<Id: Eq + Hash>(ids: &mut IdMap<Id>, hub: &mut Hub, id: &Id) -> (e: Option<
    EventLine,
>)
    requires
        old(hub).wf(),
    ensures
        final(hub).wf(),
        e is None ==> final(hub)@ == old(hub)@,
        e matches Some(e) ==> e@ is Removed && final(hub)@ == learn(old(hub)@, e@),
        vstd::std_specs::hash::obeys_key_model::<Id>() ==> {
            &&& final(ids)@ == old(ids)@.remove(*id)
            &&& e is Some <==> old(ids)@.contains_key(*id)
            &&& e matches Some(e) ==> e@ == (EventRecord::Removed { busid: old(ids)@[*id] })
        },
{
    match ids.note_removed(id) {
        Some(busid) => Some(hub.publish_removed(busid)),
        None => None,
    }
}

/// What the channel of a subscriber hands over.
#[derive(Debug)]
pub enum Received {
    Event(EventLine),
    /// The subscriber was too slow, and this many events are lost to it.
    Lagged(u64),
    /// No more events will come.
    Closed,
}

/// What to do for a subscriber.
#[derive(Debug, PartialEq, Eq)]
pub enum SubscriberStep {
    /// Write this line, and end if that fails.
    Write(String),
    /// Wait for the next event.
    Wait,
    /// Close the connection.
    End,
}

/// What to do for a subscriber whose channel has handed over `r`. One that was too slow
/// stays connected; the devices that are there are told to it when it comes again.
pub fn on_received(r: Received) -> (s: SubscriberStep)
    ensures
        match r {
            Received::Event(e) => s matches SubscriberStep::Write(line) && line@
                == crate::events::event_text(e@),
            Received::Lagged(n) => s is Wait,
            Received::Closed => s is End,
        },
{
    match r {
        Received::Event(e) => SubscriberStep::Write(encode_line(&e)),
        Received::Lagged(_) => SubscriberStep::Wait,
        Received::Closed => SubscriberStep::End,
    }
}

/// A device that is announced again changes nothing.
pub proof fn added_is_idempotent(m: Map<Seq<char>, AddedRecord>, d: AddedRecord)
    ensures
        learn(learn(m, EventRecord::Added(d)), EventRecord::Added(d)) == learn(
            m,
            EventRecord::Added(d),
        ),
{
    assert(m.insert(d.busid, d).insert(d.busid, d) =~= m.insert(d.busid, d));
}

/// `m` and `n` say the same of the device `b`.
pub open spec fn agree(
    m: Map<Seq<char>, AddedRecord>,
    n: Map<Seq<char>, AddedRecord>,
    b: Seq<char>,
) -> bool {
    m.contains_key(b) == n.contains_key(b) && (m.contains_key(b) ==> m[b] == n[b])
}

/// What is known of a device after some events is what the last of them about it says,
/// whatever was known before, and what was known before if none is about it.
proof fn learned_by_last_event(
    m: Map<Seq<char>, AddedRecord>,
    n: Map<Seq<char>, AddedRecord>,
    events: Seq<EventRecord>,
    b: Seq<char>,
)
    ensures
        (exists|i: int| 0 <= i < events.len() && (#[trigger] events[i]).about() == b) ==> agree(
            learn_all(m, events),
            learn_all(n, events),
            b,
        ),
        (forall|i: int| 0 <= i < events.len() ==> (#[trigger] events[i]).about() != b) ==> agree(
            learn_all(m, events),
            m,
            b,
        ),
    decreases events.len(),
{
    if events.len() > 0 {
        let before = events.drop_last();
        learned_by_last_event(m, n, before, b);
        let last = events.len() - 1;
        assert forall|i: int| 0 <= i < last implies before[i] == #[trigger] events[i] by {}
        if events[last].about() != b {
            if exists|i: int| 0 <= i < events.len() && (#[trigger] events[i]).about() == b {
                let i = choose|i: int|
                    0 <= i < events.len() && (#[trigger] events[i]).about() == b;
                assert(before[i].about() == b);
            }
            if forall|i: int| 0 <= i < events.len() ==> (#[trigger] events[i]).about() != b {
                assert forall|i: int| 0 <= i < before.len() implies (#[trigger] before[i]).about()
                    != b by {
                    assert(events[i].about() != b);
                }
            }
        }
    }
}

/// Who knew nothing and gets a snapshot knows exactly the devices that are there, in
/// whatever order they are announced.
pub proof fn snapshot_tells_all(m: Map<Seq<char>, AddedRecord>, events: Seq<EventRecord>)
    requires
        is_snapshot(m, events),
    ensures
        learn_all(Map::empty(), events) == m,
{
    let list = Seq::new(events.len(), |i: int| events[i]->Added_0);
    assert forall|i: int| 0 <= i < events.len() implies events[i] == EventRecord::Added(
        #[trigger] list[i],
    ) by {
        assert(events[i] is Added);
    }
    assert(as_events(list) =~= events);
    assert forall|i: int, j: int| 0 <= i < j < list.len() implies (#[trigger] list[i]).busid != (
    #[trigger] list[j]).busid by {
        assert(events[i].about() != events[j].about());
    }
    learned_devices(list);
    let known = learn_all(Map::empty(), events);
    assert forall|b: Seq<char>| agree(known, m, b) by {
        if known.contains_key(b) {
            let i = choose|i: int| 0 <= i < list.len() && (#[trigger] list[i]).busid == b;
            assert(m.contains_key(events[i].about()));
            assert(events[i] == EventRecord::Added(m[events[i].about()]));
        }
        if m.contains_key(b) {
            let k = choose|k: int| 0 <= k < events.len() && (#[trigger] events[k]).about() == b;
            assert(list[k].busid == b);
        }
    }
    assert forall|b: Seq<char>| known.dom().contains(b) == m.dom().contains(b) by {
        assert(agree(known, m, b));
    }
    assert forall|b: Seq<char>| known.contains_key(b) implies known[b] == m[b] by {
        assert(agree(known, m, b));
    }
    assert(known =~= m);
}

/// A subscriber misses nothing. The hub has published `events`; the subscriber was
/// subscribed when `subscribed` of them were out, got the snapshot when `snapped` of
/// them were out, and after it all events since it was subscribed. It then knows
/// exactly the devices that are there, though it may have heard of some twice.
pub proof fn subscriber_catches_up(
    events: Seq<EventRecord>,
    subscribed: int,
    snapped: int,
    snapshot: Seq<EventRecord>,
)
    requires
        0 <= subscribed <= snapped <= events.len(),
        is_snapshot(learn_all(Map::empty(), events.take(snapped)), snapshot),
    ensures
        learn_all(learn_all(Map::empty(), snapshot), events.skip(subscribed)) == learn_all(
            Map::empty(),
            events,
        ),
{
    let at_snap = learn_all(Map::empty(), events.take(snapped));
    let at_sub = learn_all(Map::empty(), events.take(subscribed));
    let since = events.skip(subscribed);
    snapshot_tells_all(at_snap, snapshot);
    learned_in_turn(Map::empty(), events, subscribed);
    learned_in_turn(Map::empty(), events, snapped);
    let known = learn_all(at_snap, since);
    let truth = learn_all(Map::empty(), events);
    assert forall|b: Seq<char>| #[trigger] agree(known, truth, b) by {
        learned_by_last_event(at_snap, at_sub, since, b);
        if !(exists|i: int| 0 <= i < since.len() && (#[trigger] since[i]).about() == b) {
            let later = events.skip(snapped);
            assert forall|i: int| 0 <= i < later.len() implies (#[trigger] later[i]).about()
                != b by {
                assert(later[i] == since[i + snapped - subscribed]);
            }
            learned_by_last_event(at_snap, at_sub, later, b);
        }
    }
    assert forall|b: Seq<char>| known.dom().contains(b) == truth.dom().contains(b) by {
        assert(agree(known, truth, b));
    }
    assert forall|b: Seq<char>| known.contains_key(b) implies known[b] == truth[b] by {
        assert(agree(known, truth, b));
    }
    assert(known =~= truth);
}

/// Events can be learned in two parts.
proof fn learned_in_turn(m: Map<Seq<char>, AddedRecord>, events: Seq<EventRecord>, n: int)
    requires
        0 <= n <= events.len(),
    ensures
        learn_all(learn_all(m, events.take(n)), events.skip(n)) == learn_all(m, events),
    decreases events.len(),
{
    let first = learn_all(m, events.take(n));
    if n == events.len() {
        assert(events.take(n) =~= events);
        assert(events.skip(n) =~= Seq::empty());
    } else {
        let before = events.drop_last();
        learned_in_turn(m, before, n);
        assert(events.take(n) =~= before.take(n));
        assert(events.skip(n).drop_last() =~= before.skip(n));
        assert(events.skip(n).last() == events.last());
        assert(learn_all(first, events.skip(n)) == learn(
            learn_all(first, before.skip(n)),
            events.last(),
        ));
    }
}

/// After a device is announced it is known as it was announced, after it is withdrawn it
/// is not known, and what is known of the others stays.
pub proof fn events_change_one_device(
    m: Map<Seq<char>, AddedRecord>,
    d: AddedRecord,
    busid: Seq<char>,
    other: Seq<char>,
)
    ensures
        learn(m, EventRecord::Added(d)).contains_key(d.busid),
        learn(m, EventRecord::Added(d))[d.busid] == d,
        !learn(m, EventRecord::Removed { busid }).contains_key(busid),
        other != d.busid ==> agree(learn(m, EventRecord::Added(d)), m, other),
        other != busid ==> agree(learn(m, EventRecord::Removed { busid }), m, other),
{
}

/// A device that comes is announced with what the host reported of it.
pub proof fn arrivals_are_told(info: DeviceInfo)
    ensures
        ({
            let a = crate::events::added_record(info.record());
            &&& a.busid == crate::host::busid_text(
                info.bus_id@,
                info.port_chain@,
                info.device_address,
            )
            &&& a.vendor_id == crate::text::hex4(info.vendor_id)
            &&& a.product_id == crate::text::hex4(info.product_id)
            &&& a.manufacturer == crate::host::opt_text(info.manufacturer_string)
            &&& a.product == crate::host::opt_text(info.product_string)
            &&& a.serial == crate::host::opt_text(info.serial_number)
            &&& a.class == info.class
            &&& a.subclass == info.subclass
            &&& a.protocol == info.protocol
            &&& a.speed == crate::host::speed_number(info.speed)
        }),
{
}

/// A subscriber may be 256 events behind.
pub proof fn event_buffer_is()
    ensures
        EVENT_BUFFER == 256,
{
}

} // verus!
