use vstd::prelude::*;
use crate::filter::{
    deref_all, filter_matches, home_selection, name_filter_matches, one_primary_at_most, passes,
    select_home, select_named, selected, Named,
};
use crate::schema::{
    Accessory, ActionSet, Code, EnabledFilter, EntityRef, Home, Room, Service,
    ServiceGroup, ServiceType, Trigger, Zone,
};

verus! {

/// Everything a home holds besides its own record.
pub struct HomeContents {
    pub rooms: Vec<Room>,
    pub zones: Vec<Zone>,
    pub accessories: Vec<Accessory>,
    pub service_groups: Vec<ServiceGroup>,
    pub action_sets: Vec<ActionSet>,
    pub triggers: Vec<Trigger>,
}

/// The service: the object graph it answers from, where `homes[i]` holds
/// `contents[i]`, and the operations on it.
pub struct HKServer {
    pub homes: Vec<Home>,
    pub contents: Vec<HomeContents>,
}

impl HKServer {
    /// A server that knows no home yet.
    pub fn new() -> (r: HKServer)
        ensures
            r.wf(),
            r.homes@.len() == 0,
    {
        HKServer { homes: Vec::new(), contents: Vec::new() }
    }

    /// Each home has its contents, at most one home is primary, and only
    /// bridges list bridged accessories.
    pub open spec fn wf(&self) -> bool {
        &&& self.homes@.len() == self.contents@.len()
        &&& one_primary_at_most(self.homes@)
        &&& forall|i: int, k: int| 0 <= i < self.contents@.len() && 0 <= k < self.contents@[i].accessories@.len()
            ==> #[trigger] self.contents@[i].accessories@[k].bridge_consistent()
    }
}

/// A trigger's last firing lies in the window; a zero bound leaves that side
/// open.
pub open spec fn in_window(before: u64, after: u64, t: u64) -> bool {
    (after == 0 || after <= t) && (before == 0 || t <= before)
}

/// `enabled` passes the enabled filter.
pub open spec fn enabled_passes(f: EnabledFilter, enabled: bool) -> bool {
    match f {
        EnabledFilter::NoFilter => true,
        EnabledFilter::EnabledOnly => enabled,
        EnabledFilter::DisabledOnly => !enabled,
    }
}

/// A trigger that an `EnumerateTriggers` request keeps.
pub open spec fn trigger_kept(t: Trigger, name: Seq<char>, f: EnabledFilter, before: u64, after: u64) -> bool {
    passes(t, name) && enabled_passes(f, t.is_enabled) && in_window(before, after, t.last_fire_date)
}

/// The triggers that an `EnumerateTriggers` request keeps, in order.
pub open spec fn kept_triggers(triggers: Seq<Trigger>, name: Seq<char>, f: EnabledFilter, before: u64, after: u64) -> Seq<Trigger> {
    triggers.filter(|t: Trigger| trigger_kept(t, name, f, before, after))
}

/// A zone that an `EnumerateZones` request keeps: it passes the name filter
/// and, unless the room filter is empty, holds a room that passes it.
pub open spec fn zone_kept(z: Zone, room_filter: Seq<char>, name: Seq<char>) -> bool {
    passes(z, name) && (room_filter.len() == 0 || exists|k: int| 0 <= k < z.rooms@.len() && #[trigger] passes(z.rooms@[k], room_filter))
}

/// A zone that passes `zone_filter` lists the room `room_uuid`.
pub open spec fn in_zone(zones: Seq<Zone>, zone_filter: Seq<char>, room_uuid: Seq<char>) -> bool {
    exists|z: int, k: int| 0 <= z < zones.len() && 0 <= k < zones[z].rooms@.len()
        && #[trigger] passes(zones[z], zone_filter) && #[trigger] zones[z].rooms@[k].uuid@ == room_uuid
}

/// An accessory that an `EnumerateAccessories` request keeps: it passes the
/// name filter; unless empty, the room filter must pass its room, and the
/// zone filter a zone that lists its room.
pub open spec fn accessory_kept(a: Accessory, zones: Seq<Zone>, zone_filter: Seq<char>, room_filter: Seq<char>, name: Seq<char>) -> bool {
    &&& passes(a, name)
    &&& room_filter.len() == 0 || (a.room matches Some(r) && passes(r, room_filter))
    &&& zone_filter.len() == 0 || (a.room matches Some(r) && in_zone(zones, zone_filter, r.uuid@))
}

/// A service that an `EnumerateServices` request keeps: its type is one of
/// `types` (any type when `types` is empty) and it passes the name filter.
pub open spec fn service_kept(s: Service, types: Seq<ServiceType>, name: Seq<char>) -> bool {
    (types.len() == 0 || types.contains(s.service_type)) && passes(s, name)
}

/// The services of all accessories, accessory by accessory.
pub open spec fn all_services(accs: Seq<Accessory>) -> Seq<Service>
    decreases accs.len(),
{
    if accs.len() == 0 {
        Seq::empty()
    } else {
        all_services(accs.drop_last()) + accs.last().services@
    }
}

fn type_listed(types: &Vec<ServiceType>, t: ServiceType) -> (r: bool)
    ensures
        r == types@.contains(t),
{
    let mut i: usize = 0;
    while i < types.len()
        invariant
            i <= types@.len(),
            forall|j: int| 0 <= j < i ==> types@[j] != t,
        decreases types@.len() - i,
    {
        if types[i] == t {
            return true;
        }
        i = i + 1;
    }
    false
}

fn zone_has_room(z: &Zone, room_filter: &str) -> (r: bool)
    ensures
        r == exists|k: int| 0 <= k < z.rooms@.len() && #[trigger] passes(z.rooms@[k], room_filter@),
{
    let mut k: usize = 0;
    while k < z.rooms.len()
        invariant
            k <= z.rooms@.len(),
            forall|j: int| 0 <= j < k ==> !#[trigger] passes(z.rooms@[j], room_filter@),
        decreases z.rooms@.len() - k,
    {
        let r = &z.rooms[k];
        if name_filter_matches(room_filter, r.uuid.as_str(), r.name.as_str()) {
            assert(passes(z.rooms@[k as int], room_filter@));
            return true;
        }
        k = k + 1;
    }
    false
}

fn room_in_zone(zones: &Vec<Zone>, zone_filter: &str, room_uuid: &String) -> (r: bool)
    ensures
        r == in_zone(zones@, zone_filter@, room_uuid@),
{
    let mut z: usize = 0;
    while z < zones.len()
        invariant
            z <= zones@.len(),
            forall|a: int, k: int| 0 <= a < z && 0 <= k < zones@[a].rooms@.len() && #[trigger] passes(zones@[a], zone_filter@)
                ==> #[trigger] zones@[a].rooms@[k].uuid@ != room_uuid@,
        decreases zones@.len() - z,
    {
        let zone = &zones[z];
        if name_filter_matches(zone_filter, zone.uuid.as_str(), zone.name.as_str()) {
            let mut k: usize = 0;
            while k < zone.rooms.len()
                invariant
                    k <= zone.rooms@.len(),
                    z < zones@.len(),
                    *zone == zones@[z as int],
                    passes(zones@[z as int], zone_filter@),
                    forall|a: int, k: int| 0 <= a < z && 0 <= k < zones@[a].rooms@.len() && #[trigger] passes(zones@[a], zone_filter@)
                        ==> #[trigger] zones@[a].rooms@[k].uuid@ != room_uuid@,
                    forall|j: int| 0 <= j < k ==> #[trigger] zone.rooms@[j].uuid@ != room_uuid@,
                decreases zone.rooms@.len() - k,
            {
                if zone.rooms[k].uuid == *room_uuid {
                    assert(passes(zones@[z as int], zone_filter@));
                    assert(zones@[z as int].rooms@[k as int].uuid@ == room_uuid@);
                    return true;
                }
                k = k + 1;
            }
        }
        z = z + 1;
    }
    false
}

fn select_zones<'a>(zones: &'a Vec<Zone>, room_filter: &str, name_filter: &str) -> (r: Vec<&'a Zone>)
    ensures
        deref_all(r@) == zones@.filter(|z: Zone| zone_kept(z, room_filter@, name_filter@)),
{
    let ghost pred = |z: Zone| zone_kept(z, room_filter@, name_filter@);
    let room_empty = room_filter.unicode_len() == 0;
    let mut r: Vec<&'a Zone> = Vec::new();
    let mut i: usize = 0;
    while i < zones.len()
        invariant
            i <= zones@.len(),
            room_empty == (room_filter@.len() == 0),
            pred == (|z: Zone| zone_kept(z, room_filter@, name_filter@)),
            deref_all(r@) == zones@.subrange(0, i as int).filter(pred),
        decreases zones@.len() - i,
    {
        let z = &zones[i];
        let keep = name_filter_matches(name_filter, z.uuid_str(), z.name_str())
            && (room_empty || zone_has_room(z, room_filter));
        proof {
            assert(zones@.subrange(0, i + 1).drop_last() =~= zones@.subrange(0, i as int));
            reveal_with_fuel(Seq::filter, 1);
        }
        if keep {
            r.push(z);
        }
        i = i + 1;
        assert(deref_all(r@) =~= zones@.subrange(0, i as int).filter(pred));
    }
    assert(zones@.subrange(0, i as int) =~= zones@);
    r
}

fn select_accessories<'a>(
    accs: &'a Vec<Accessory>,
    zones: &Vec<Zone>,
    zone_filter: &str,
    room_filter: &str,
    name_filter: &str,
) -> (r: Vec<&'a Accessory>)
    ensures
        deref_all(r@) == accs@.filter(|a: Accessory| accessory_kept(a, zones@, zone_filter@, room_filter@, name_filter@)),
{
    let ghost pred = |a: Accessory| accessory_kept(a, zones@, zone_filter@, room_filter@, name_filter@);
    let room_empty = room_filter.unicode_len() == 0;
    let zone_empty = zone_filter.unicode_len() == 0;
    let mut r: Vec<&'a Accessory> = Vec::new();
    let mut i: usize = 0;
    while i < accs.len()
        invariant
            i <= accs@.len(),
            room_empty == (room_filter@.len() == 0),
            zone_empty == (zone_filter@.len() == 0),
            pred == (|a: Accessory| accessory_kept(a, zones@, zone_filter@, room_filter@, name_filter@)),
            deref_all(r@) == accs@.subrange(0, i as int).filter(pred),
        decreases accs@.len() - i,
    {
        let a = &accs[i];
        let room_ok = room_empty || match &a.room {
            Some(room) => name_filter_matches(room_filter, room.uuid.as_str(), room.name.as_str()),
            None => false,
        };
        let zone_ok = zone_empty || match &a.room {
            Some(room) => room_in_zone(zones, zone_filter, &room.uuid),
            None => false,
        };
        let keep = name_filter_matches(name_filter, a.uuid_str(), a.name_str()) && room_ok && zone_ok;
        proof {
            assert(accs@.subrange(0, i + 1).drop_last() =~= accs@.subrange(0, i as int));
            reveal_with_fuel(Seq::filter, 1);
        }
        if keep {
            r.push(a);
        }
        i = i + 1;
        assert(deref_all(r@) =~= accs@.subrange(0, i as int).filter(pred));
    }
    assert(accs@.subrange(0, i as int) =~= accs@);
    r
}

fn select_services<'a>(accs: &'a Vec<Accessory>, types: &Vec<ServiceType>, name_filter: &str) -> (r: Vec<&'a Service>)
    ensures
        deref_all(r@) == all_services(accs@).filter(|s: Service| service_kept(s, types@, name_filter@)),
{
    let ghost pred = |s: Service| service_kept(s, types@, name_filter@);
    let any_type = types.len() == 0;
    let mut r: Vec<&'a Service> = Vec::new();
    let mut i: usize = 0;
    while i < accs.len()
        invariant
            i <= accs@.len(),
            any_type == (types@.len() == 0),
            pred == (|s: Service| service_kept(s, types@, name_filter@)),
            deref_all(r@) == all_services(accs@.subrange(0, i as int)).filter(pred),
        decreases accs@.len() - i,
    {
        let services = &accs[i].services;
        let ghost before = all_services(accs@.subrange(0, i as int));
        let mut k: usize = 0;
        while k < services.len()
            invariant
                i < accs@.len(),
                *services == accs@[i as int].services,
                k <= services@.len(),
                any_type == (types@.len() == 0),
                pred == (|s: Service| service_kept(s, types@, name_filter@)),
                before == all_services(accs@.subrange(0, i as int)),
                deref_all(r@) == (before + services@.subrange(0, k as int)).filter(pred),
            decreases services@.len() - k,
        {
            let s = &services[k];
            let keep = (any_type || type_listed(types, s.service_type))
                && name_filter_matches(name_filter, s.uuid_str(), s.name_str());
            proof {
                assert((before + services@.subrange(0, k + 1)).drop_last() =~= before + services@.subrange(0, k as int));
                reveal_with_fuel(Seq::filter, 1);
            }
            if keep {
                r.push(s);
            }
            k = k + 1;
            assert(deref_all(r@) =~= (before + services@.subrange(0, k as int)).filter(pred));
        }
        proof {
            assert(accs@.subrange(0, i + 1).drop_last() =~= accs@.subrange(0, i as int));
            assert(services@.subrange(0, k as int) =~= services@);
        }
        i = i + 1;
    }
    assert(accs@.subrange(0, i as int) =~= accs@);
    r
}

fn select_triggers<'a>(
    triggers: &'a Vec<Trigger>,
    name_filter: &str,
    enabled: EnabledFilter,
    before: u64,
    after: u64,
) -> (r: Vec<&'a Trigger>)
    ensures
        deref_all(r@) == triggers@.filter(|t: Trigger| trigger_kept(t, name_filter@, enabled, before, after)),
{
    let ghost pred = |t: Trigger| trigger_kept(t, name_filter@, enabled, before, after);
    let mut r: Vec<&'a Trigger> = Vec::new();
    let mut i: usize = 0;
    while i < triggers.len()
        invariant
            i <= triggers@.len(),
            pred == (|t: Trigger| trigger_kept(t, name_filter@, enabled, before, after)),
            deref_all(r@) == triggers@.subrange(0, i as int).filter(pred),
        decreases triggers@.len() - i,
    {
        let t = &triggers[i];
        let enabled_ok = match enabled {
            EnabledFilter::NoFilter => true,
            EnabledFilter::EnabledOnly => t.is_enabled,
            EnabledFilter::DisabledOnly => !t.is_enabled,
        };
        let window_ok = (after == 0 || after <= t.last_fire_date) && (before == 0 || t.last_fire_date <= before);
        let keep = enabled_ok && window_ok && name_filter_matches(name_filter, t.uuid_str(), t.name_str());
        proof {
            assert(triggers@.subrange(0, i + 1).drop_last() =~= triggers@.subrange(0, i as int));
            reveal_with_fuel(Seq::filter, 1);
        }
        if keep {
            r.push(t);
        }
        i = i + 1;
        assert(deref_all(r@) =~= triggers@.subrange(0, i as int).filter(pred));
    }
    assert(triggers@.subrange(0, i as int) =~= triggers@);
    r
}

impl HKServer {
    /// The home that `home` selects, and its zones that pass `name_filter`
    /// and, unless `room_filter` is empty, list a room that passes it.
    pub fn enumerate_zones(&self, home: &str, room_filter: &str, name_filter: &str) -> (r: Result<(&Home, Vec<&Zone>), Code>)
        requires
            self.wf(),
        ensures
            match home_selection(self.homes@, home@) {
                Ok(i) => r matches Ok((h, zones)) && *h == self.homes@[i]
                    && deref_all(zones@) == self.contents@[i].zones@.filter(|z: Zone| zone_kept(z, room_filter@, name_filter@)),
                Err(c) => r == Err::<(&Home, Vec<&Zone>), Code>(c),
            },
    {
        match select_home(&self.homes, home) {
            Ok(i) => Ok((&self.homes[i], select_zones(&self.contents[i].zones, room_filter, name_filter))),
            Err(c) => Err(c),
        }
    }

    /// The home that `home` selects, and its accessories that every
    /// non-empty filter passes.
    pub fn enumerate_accessories(
        &self,
        home: &str,
        zone_filter: &str,
        room_filter: &str,
        name_filter: &str,
    ) -> (r: Result<(&Home, Vec<&Accessory>), Code>)
        requires
            self.wf(),
        ensures
            match home_selection(self.homes@, home@) {
                Ok(i) => r matches Ok((h, accs)) && *h == self.homes@[i]
                    && deref_all(accs@) == self.contents@[i].accessories@.filter(
                        |a: Accessory| accessory_kept(a, self.contents@[i].zones@, zone_filter@, room_filter@, name_filter@)),
                Err(c) => r == Err::<(&Home, Vec<&Accessory>), Code>(c),
            },
    {
        match select_home(&self.homes, home) {
            Ok(i) => {
                let c = &self.contents[i];
                Ok((&self.homes[i], select_accessories(&c.accessories, &c.zones, zone_filter, room_filter, name_filter)))
            },
            Err(c) => Err(c),
        }
    }

    /// The home that `home` selects, and the services of its accessories
    /// whose type is listed (any, for an empty list) and that pass
    /// `name_filter`.
    pub fn enumerate_services(&self, home: &str, types: &Vec<ServiceType>, name_filter: &str) -> (r: Result<(&Home, Vec<&Service>), Code>)
        requires
            self.wf(),
        ensures
            match home_selection(self.homes@, home@) {
                Ok(i) => r matches Ok((h, services)) && *h == self.homes@[i]
                    && deref_all(services@) == all_services(self.contents@[i].accessories@).filter(
                        |s: Service| service_kept(s, types@, name_filter@)),
                Err(c) => r == Err::<(&Home, Vec<&Service>), Code>(c),
            },
    {
        match select_home(&self.homes, home) {
            Ok(i) => Ok((&self.homes[i], select_services(&self.contents[i].accessories, types, name_filter))),
            Err(c) => Err(c),
        }
    }

    /// The home that `home` selects, and its triggers that pass the name
    /// filter, the enabled filter and the time window.
    pub fn enumerate_triggers(
        &self,
        home: &str,
        name_filter: &str,
        enabled: EnabledFilter,
        before: u64,
        after: u64,
    ) -> (r: Result<(&Home, Vec<&Trigger>), Code>)
        requires
            self.wf(),
        ensures
            match home_selection(self.homes@, home@) {
                Ok(i) => r matches Ok((h, triggers)) && *h == self.homes@[i]
                    && deref_all(triggers@) == kept_triggers(self.contents@[i].triggers@, name_filter@, enabled, before, after),
                Err(c) => r == Err::<(&Home, Vec<&Trigger>), Code>(c),
            },
    {
        match select_home(&self.homes, home) {
            Ok(i) => Ok((&self.homes[i], select_triggers(&self.contents[i].triggers, name_filter, enabled, before, after))),
            Err(c) => Err(c),
        }
    }

    /// The homes that pass `name_filter`, in order.
    pub fn enumerate_homes(&self, name_filter: &str) -> (r: Vec<&Home>)
        ensures
            deref_all(r@) == selected(self.homes@, name_filter@),
    {
        select_named(&self.homes, name_filter)
    }

    /// The home that `home` selects, and its rooms that pass `name_filter`.
    pub fn enumerate_rooms(&self, home: &str, name_filter: &str) -> (r: Result<(&Home, Vec<&Room>), Code>)
        requires
            self.wf(),
        ensures
            match home_selection(self.homes@, home@) {
                Ok(i) => r matches Ok((h, rooms)) && *h == self.homes@[i]
                    && deref_all(rooms@) == selected(self.contents@[i].rooms@, name_filter@),
                Err(c) => r == Err::<(&Home, Vec<&Room>), Code>(c),
            },
    {
        match select_home(&self.homes, home) {
            Ok(i) => Ok((&self.homes[i], select_named(&self.contents[i].rooms, name_filter))),
            Err(c) => Err(c),
        }
    }

    /// The home that `home` selects, and its service groups that pass
    /// `name_filter`.
    pub fn enumerate_service_groups(&self, home: &str, name_filter: &str) -> (r: Result<(&Home, Vec<&ServiceGroup>), Code>)
        requires
            self.wf(),
        ensures
            match home_selection(self.homes@, home@) {
                Ok(i) => r matches Ok((h, groups)) && *h == self.homes@[i]
                    && deref_all(groups@) == selected(self.contents@[i].service_groups@, name_filter@),
                Err(c) => r == Err::<(&Home, Vec<&ServiceGroup>), Code>(c),
            },
    {
        match select_home(&self.homes, home) {
            Ok(i) => Ok((&self.homes[i], select_named(&self.contents[i].service_groups, name_filter))),
            Err(c) => Err(c),
        }
    }

    /// The home that `home` selects, and its action sets that pass
    /// `name_filter`.
    pub fn enumerate_action_sets(&self, home: &str, name_filter: &str) -> (r: Result<(&Home, Vec<&ActionSet>), Code>)
        requires
            self.wf(),
        ensures
            match home_selection(self.homes@, home@) {
                Ok(i) => r matches Ok((h, sets)) && *h == self.homes@[i]
                    && deref_all(sets@) == selected(self.contents@[i].action_sets@, name_filter@),
                Err(c) => r == Err::<(&Home, Vec<&ActionSet>), Code>(c),
            },
    {
        match select_home(&self.homes, home) {
            Ok(i) => Ok((&self.homes[i], select_named(&self.contents[i].action_sets, name_filter))),
            Err(c) => Err(c),
        }
    }
}


proof fn lemma_filter_keeps_one_primary(s: Seq<Home>, pred: spec_fn(Home) -> bool)
    requires
        one_primary_at_most(s),
    ensures
        one_primary_at_most(s.filter(pred)),
    decreases s.len(),
{
    reveal_with_fuel(Seq::filter, 1);
    if s.len() > 0 {
        let t = s.drop_last();
        assert forall|i: int, j: int| 0 <= i < t.len() && 0 <= j < t.len() && #[trigger] t[i].is_primary
            && #[trigger] t[j].is_primary implies i == j by {
            assert(s[i] == t[i] && s[j] == t[j]);
        }
        lemma_filter_keeps_one_primary(t, pred);
        let ft = t.filter(pred);
        if pred(s.last()) && s.last().is_primary {
            assert forall|i: int| 0 <= i < ft.len() implies !#[trigger] ft[i].is_primary by {
                assert(ft.contains(ft[i]));
                t.lemma_filter_contains_rev(pred, ft[i]);
                let k = choose|k: int| 0 <= k < t.len() && t[k] == ft[i];
                assert(s[k] == t[k]);
                assert(s[s.len() - 1].is_primary);
            }
            let fs = ft.push(s.last());
            assert forall|i: int, j: int| 0 <= i < fs.len() && 0 <= j < fs.len() && #[trigger] fs[i].is_primary
                && #[trigger] fs[j].is_primary implies i == j by {
                if i < ft.len() {
                    assert(fs[i] == ft[i]);
                }
                if j < ft.len() {
                    assert(fs[j] == ft[j]);
                }
            }
        } else if pred(s.last()) {
            let fs = ft.push(s.last());
            assert forall|i: int, j: int| 0 <= i < fs.len() && 0 <= j < fs.len() && #[trigger] fs[i].is_primary
                && #[trigger] fs[j].is_primary implies i == j by {
                if i < ft.len() {
                    assert(fs[i] == ft[i]);
                }
                if j < ft.len() {
                    assert(fs[j] == ft[j]);
                }
            }
        }
    }
}

/// Whatever the name filter, the homes that `enumerate_homes` lists hold at
/// most one primary home.
pub proof fn lemma_enumerated_homes_one_primary(p: HKServer, name_filter: Seq<char>)
    requires
        p.wf(),
    ensures
        one_primary_at_most(selected(p.homes@, name_filter)),
{
    lemma_filter_keeps_one_primary(p.homes@, |x: Home| passes(x, name_filter));
}

/// An empty home filter selects the home that is primary, and an empty name
/// filter lists every home: the home of `enumerate_rooms("")` is the one
/// that `enumerate_homes("")` marks primary.
pub proof fn lemma_empty_home_is_primary(p: HKServer, i: int)
    requires
        p.wf(),
        0 <= i < p.homes@.len(),
    ensures
        selected(p.homes@, Seq::<char>::empty()) == p.homes@,
        home_selection(p.homes@, Seq::<char>::empty()) == Ok::<int, Code>(i) <==> p.homes@[i].is_primary,
{
    lemma_filter_all(p.homes@, |x: Home| passes(x, Seq::<char>::empty()));
    if p.homes@[i].is_primary {
        let c = choose|c: int| 0 <= c < p.homes@.len() && #[trigger] p.homes@[c].is_primary;
        assert(p.homes@[c].is_primary);
    }
}

proof fn lemma_filter_all<A>(s: Seq<A>, pred: spec_fn(A) -> bool)
    requires
        forall|x: A| #[trigger] pred(x),
    ensures
        s.filter(pred) == s,
    decreases s.len(),
{
    reveal_with_fuel(Seq::filter, 1);
    if s.len() > 0 {
        lemma_filter_all(s.drop_last(), pred);
        assert(s.drop_last().push(s.last()) =~= s);
    }
}

/// Zero bounds leave the time window open: with `before == after == 0` the
/// triggers kept are those that the name and enabled filters keep. Every
/// trigger kept otherwise fired no earlier than a non-zero `after` and no
/// later than a non-zero `before`.
pub proof fn lemma_trigger_window(triggers: Seq<Trigger>, name: Seq<char>, f: EnabledFilter, before: u64, after: u64)
    ensures
        kept_triggers(triggers, name, f, 0, 0)
            == triggers.filter(|t: Trigger| passes(t, name) && enabled_passes(f, t.is_enabled)),
        forall|k: int| 0 <= k < kept_triggers(triggers, name, f, before, after).len() ==>
            (after != 0 ==> after <= (#[trigger] kept_triggers(triggers, name, f, before, after)[k]).last_fire_date)
            && (before != 0 ==> kept_triggers(triggers, name, f, before, after)[k].last_fire_date <= before),
{
    let p0 = |t: Trigger| trigger_kept(t, name, f, 0, 0);
    let q = |t: Trigger| passes(t, name) && enabled_passes(f, t.is_enabled);
    assert(p0 =~= q);
    let p = |t: Trigger| trigger_kept(t, name, f, before, after);
    assert forall|k: int| 0 <= k < kept_triggers(triggers, name, f, before, after).len() implies
        trigger_kept(#[trigger] kept_triggers(triggers, name, f, before, after)[k], name, f, before, after) by {
        triggers.lemma_filter_pred(p, k);
    }
}

/// In a well-formed provider, an accessory that is not a bridge lists no
/// bridged accessories.
pub proof fn lemma_only_bridges_list_bridged(p: HKServer, i: int, k: int)
    requires
        p.wf(),
        0 <= i < p.contents@.len(),
        0 <= k < p.contents@[i].accessories@.len(),
        p.contents@[i].accessories@[k].category != crate::schema::Category::Bridge,
    ensures
        p.contents@[i].accessories@[k].bridged_accessory_uuids@.len() == 0,
{
    assert(p.contents@[i].accessories@[k].bridge_consistent());
}


/// The uuid and name of each room, in order.
pub open spec fn room_refs(rooms: Seq<Room>) -> Seq<(Seq<char>, Seq<char>)> {
    rooms.map_values(|r: Room| (r.uuid@, r.name@))
}

/// `key` names a room by its uuid or by its exact name.
pub open spec fn identifies(r: (Seq<char>, Seq<char>), key: Seq<char>) -> bool {
    r.0 == key || r.1 == key
}

/// Some room is named `name`.
pub open spec fn name_taken(rooms: Seq<(Seq<char>, Seq<char>)>, name: Seq<char>) -> bool {
    exists|j: int| 0 <= j < rooms.len() && (#[trigger] rooms[j]).1 == name
}

/// The first room that `key` identifies, or `-1`.
pub open spec fn room_index(rooms: Seq<(Seq<char>, Seq<char>)>, key: Seq<char>) -> int
    decreases rooms.len(),
{
    if rooms.len() == 0 {
        -1
    } else if identifies(rooms[0], key) {
        0
    } else {
        let k = room_index(rooms.drop_first(), key);
        if k < 0 { -1 } else { k + 1 }
    }
}

/// Some accessory of `accs` has the uuid `u`.
pub open spec fn known_accessory(accs: Seq<Accessory>, u: Seq<char>) -> bool {
    exists|k: int| 0 <= k < accs.len() && (#[trigger] accs[k]).uuid@ == u
}

/// Every uuid of `uuids` is an accessory of `accs`.
pub open spec fn all_known(accs: Seq<Accessory>, uuids: Seq<String>) -> bool {
    forall|m: int| 0 <= m < uuids.len() ==> known_accessory(accs, (#[trigger] uuids[m])@)
}

/// `u` is one of `uuids`.
pub open spec fn listed(uuids: Seq<String>, u: Seq<char>) -> bool {
    exists|m: int| 0 <= m < uuids.len() && (#[trigger] uuids[m])@ == u
}

fn is_listed(uuids: &Vec<String>, u: &String) -> (r: bool)
    ensures
        r == listed(uuids@, u@),
{
    let mut m: usize = 0;
    while m < uuids.len()
        invariant
            m <= uuids@.len(),
            forall|j: int| 0 <= j < m ==> (#[trigger] uuids@[j])@ != u@,
        decreases uuids@.len() - m,
    {
        if uuids[m] == *u {
            assert(uuids@[m as int]@ == u@);
            return true;
        }
        m = m + 1;
    }
    false
}

fn find_room(rooms: &Vec<Room>, key: &str) -> (r: Option<usize>)
    ensures
        match r {
            Some(j) => room_index(room_refs(rooms@), key@) == j as int && j < rooms@.len(),
            None => room_index(room_refs(rooms@), key@) == -1,
        },
{
    let key_text = key.to_owned();
    let mut j: usize = 0;
    while j < rooms.len()
        invariant
            j <= rooms@.len(),
            key_text@ == key@,
            forall|m: int| 0 <= m < j ==> !identifies(#[trigger] room_refs(rooms@)[m], key@),
        decreases rooms@.len() - j,
    {
        assert(room_refs(rooms@)[j as int] == (rooms@[j as int].uuid@, rooms@[j as int].name@));
        if rooms[j].uuid == key_text || rooms[j].name == key_text {
            proof {
                lemma_room_index_first(room_refs(rooms@), key@, j as int);
            }
            return Some(j);
        }
        j = j + 1;
    }
    proof {
        lemma_room_index_none(room_refs(rooms@), key@);
    }
    None
}

proof fn lemma_room_index_first(rs: Seq<(Seq<char>, Seq<char>)>, key: Seq<char>, j: int)
    requires
        0 <= j < rs.len(),
        identifies(rs[j], key),
        forall|m: int| 0 <= m < j ==> !identifies(#[trigger] rs[m], key),
    ensures
        room_index(rs, key) == j,
    decreases j,
{
    if j > 0 {
        let t = rs.drop_first();
        assert forall|m: int| 0 <= m < j - 1 implies !identifies(#[trigger] t[m], key) by {
            assert(t[m] == rs[m + 1]);
        }
        assert(!identifies(rs[0], key));
        lemma_room_index_first(t, key, j - 1);
    }
}

proof fn lemma_room_index_none(rs: Seq<(Seq<char>, Seq<char>)>, key: Seq<char>)
    requires
        forall|m: int| 0 <= m < rs.len() ==> !identifies(#[trigger] rs[m], key),
    ensures
        room_index(rs, key) == -1,
    decreases rs.len(),
{
    if rs.len() > 0 {
        let t = rs.drop_first();
        assert forall|m: int| 0 <= m < t.len() implies !identifies(#[trigger] t[m], key) by {
            assert(t[m] == rs[m + 1]);
        }
        assert(!identifies(rs[0], key));
        lemma_room_index_none(t, key);
    }
}

fn name_in_use(rooms: &Vec<Room>, name: &str) -> (r: bool)
    ensures
        r == name_taken(room_refs(rooms@), name@),
{
    let name_text = name.to_owned();
    let mut j: usize = 0;
    while j < rooms.len()
        invariant
            j <= rooms@.len(),
            name_text@ == name@,
            forall|m: int| 0 <= m < j ==> (#[trigger] room_refs(rooms@)[m]).1 != name@,
        decreases rooms@.len() - j,
    {
        assert(room_refs(rooms@)[j as int] == (rooms@[j as int].uuid@, rooms@[j as int].name@));
        if rooms[j].name == name_text {
            assert(room_refs(rooms@)[j as int].1 == name@);
            return true;
        }
        j = j + 1;
    }
    false
}

fn all_accessories_known(accs: &Vec<Accessory>, uuids: &Vec<String>) -> (r: bool)
    ensures
        r == all_known(accs@, uuids@),
{
    let mut m: usize = 0;
    while m < uuids.len()
        invariant
            m <= uuids@.len(),
            forall|j: int| 0 <= j < m ==> known_accessory(accs@, (#[trigger] uuids@[j])@),
        decreases uuids@.len() - m,
    {
        let mut found = false;
        let mut k: usize = 0;
        while k < accs.len()
            invariant
                m < uuids@.len(),
                k <= accs@.len(),
                found ==> known_accessory(accs@, uuids@[m as int]@),
                !found ==> forall|j: int| 0 <= j < k ==> (#[trigger] accs@[j]).uuid@ != uuids@[m as int]@,
            decreases accs@.len() - k,
        {
            if accs[k].uuid == uuids[m] {
                assert(accs@[k as int].uuid@ == uuids@[m as int]@);
                found = true;
            }
            k = k + 1;
        }
        if !found {
            assert(!known_accessory(accs@, uuids@[m as int]@));
            return false;
        }
        m = m + 1;
    }
    true
}

fn copy_home(h: &Home) -> (r: Home)
    ensures
        r.uuid@ == h.uuid@,
        r.name@ == h.name@,
        r.is_primary == h.is_primary,
        r.hub_state == h.hub_state,
{
    Home { uuid: h.uuid.clone(), name: h.name.clone(), is_primary: h.is_primary, hub_state: h.hub_state }
}

/// The view of each reference, in order.
pub open spec fn ref_views(v: Seq<EntityRef>) -> Seq<(Seq<char>, Seq<char>)> {
    v.map_values(|e: EntityRef| e@)
}

fn copy_refs(v: &Vec<EntityRef>) -> (r: Vec<EntityRef>)
    ensures
        ref_views(r@) == ref_views(v@),
{
    let mut r: Vec<EntityRef> = Vec::new();
    let mut i: usize = 0;
    while i < v.len()
        invariant
            i <= v@.len(),
            ref_views(r@) == ref_views(v@.subrange(0, i as int)),
        decreases v@.len() - i,
    {
        let e = EntityRef { uuid: v[i].uuid.clone(), name: v[i].name.clone() };
        assert(e@ == v@[i as int]@);
        let ghost old_r = r@;
        r.push(e);
        proof {
            assert(r@ == old_r.push(e));
            assert(v@.subrange(0, i + 1) =~= v@.subrange(0, i as int).push(v@[i as int]));
            assert(ref_views(r@) =~= ref_views(old_r).push(e@));
            assert(ref_views(v@.subrange(0, i + 1)) =~= ref_views(v@.subrange(0, i as int)).push(v@[i as int]@));
        }
        i = i + 1;
    }
    assert(v@.subrange(0, i as int) =~= v@);
    r
}

/// The references of accessories named in `uuids`, in the order of `accs`.
pub open spec fn refs_of_listed(accs: Seq<Accessory>, uuids: Seq<String>) -> Seq<(Seq<char>, Seq<char>)> {
    accs.filter(|a: Accessory| listed(uuids, a.uuid@)).map_values(|a: Accessory| (a.uuid@, a.name@))
}

fn listed_refs(accs: &Vec<Accessory>, uuids: &Vec<String>) -> (r: Vec<EntityRef>)
    ensures
        ref_views(r@) == refs_of_listed(accs@, uuids@),
{
    let ghost pred = |a: Accessory| listed(uuids@, a.uuid@);
    let mut r: Vec<EntityRef> = Vec::new();
    let mut i: usize = 0;
    while i < accs.len()
        invariant
            i <= accs@.len(),
            pred == (|a: Accessory| listed(uuids@, a.uuid@)),
            ref_views(r@) == accs@.subrange(0, i as int).filter(pred).map_values(|a: Accessory| (a.uuid@, a.name@)),
        decreases accs@.len() - i,
    {
        let keep = is_listed(uuids, &accs[i].uuid);
        proof {
            assert(accs@.subrange(0, i + 1).drop_last() =~= accs@.subrange(0, i as int));
            reveal_with_fuel(Seq::filter, 1);
        }
        let ghost old_r = r@;
        let ghost f = accs@.subrange(0, i as int).filter(pred);
        if keep {
            let e = EntityRef { uuid: accs[i].uuid.clone(), name: accs[i].name.clone() };
            r.push(e);
            proof {
                assert(accs@.subrange(0, i + 1).filter(pred) == f.push(accs@[i as int]));
                assert(ref_views(r@) =~= ref_views(old_r).push(e@));
                assert(f.push(accs@[i as int]).map_values(|a: Accessory| (a.uuid@, a.name@))
                    =~= f.map_values(|a: Accessory| (a.uuid@, a.name@)).push((accs@[i as int].uuid@, accs@[i as int].name@)));
            }
        } else {
            assert(accs@.subrange(0, i + 1).filter(pred) == f);
        }
        i = i + 1;
    }
    assert(accs@.subrange(0, i as int) =~= accs@);
    r
}

impl HKServer {
    /// Creates the room `name` in the home that `home` selects, with the uuid
    /// `uuid` that the platform gave it, and moves the listed accessories
    /// into it: their `room` becomes the new room and the other rooms no
    /// longer list them. A room of that name already there gives `AlreadyExists`; an
    /// unknown accessory gives `NotFound`. On any error nothing changes.
    pub fn add_room(&mut self, home: &str, name: &str, accessories: &Vec<String>, uuid: String) -> (r: Result<(Home, Room), Code>)
        requires
            old(self).wf(),
        ensures
            final(self).wf(),
            match home_selection(old(self).homes@, home@) {
                Err(c) => r == Err::<(Home, Room), Code>(c) && *final(self) == *old(self),
                Ok(i) => if name_taken(room_refs(old(self).contents@[i].rooms@), name@) {
                    r == Err::<(Home, Room), Code>(Code::AlreadyExists) && *final(self) == *old(self)
                } else if !all_known(old(self).contents@[i].accessories@, accessories@) {
                    r == Err::<(Home, Room), Code>(Code::NotFound) && *final(self) == *old(self)
                } else {
                    &&& r matches Ok((h, room))
                    &&& h.uuid@ == old(self).homes@[i].uuid@ && h.name@ == old(self).homes@[i].name@
                    &&& room.uuid@ == uuid@ && room.name@ == name@
                    &&& ref_views(room.accessories@) == refs_of_listed(old(self).contents@[i].accessories@, accessories@)
                    &&& final(self).homes@ == old(self).homes@
                    &&& final(self).contents@.len() == old(self).contents@.len()
                    &&& forall|j: int| 0 <= j < old(self).contents@.len() && j != i ==> #[trigger] final(self).contents@[j] == old(self).contents@[j]
                    &&& room_refs(final(self).contents@[i].rooms@) == room_refs(old(self).contents@[i].rooms@).push((uuid@, name@))
                    &&& forall|j: int| 0 <= j < old(self).contents@[i].rooms@.len() ==> ref_views(
                        (#[trigger] final(self).contents@[i].rooms@[j]).accessories@)
                        == unlisted_views(old(self).contents@[i].rooms@[j].accessories@, accessories@)
                    &&& final(self).contents@[i].accessories@.len() == old(self).contents@[i].accessories@.len()
                    &&& forall|k: int| 0 <= k < old(self).contents@[i].accessories@.len() ==> {
                        let a = #[trigger] final(self).contents@[i].accessories@[k];
                        let b = old(self).contents@[i].accessories@[k];
                        &&& a.uuid == b.uuid && a.name == b.name && a.category == b.category
                        &&& a.bridged_accessory_uuids == b.bridged_accessory_uuids
                        &&& if listed(accessories@, b.uuid@) {
                            a.room matches Some(e) && e@ == (uuid@, name@)
                        } else {
                            a.room == b.room
                        }
                    }
                },
            },
    {
        let i = match select_home(&self.homes, home) {
            Ok(i) => i,
            Err(c) => return Err(c),
        };
        if name_in_use(&self.contents[i].rooms, name) {
            return Err(Code::AlreadyExists);
        }
        if !all_accessories_known(&self.contents[i].accessories, accessories) {
            return Err(Code::NotFound);
        }
        let refs = listed_refs(&self.contents[i].accessories, accessories);
        let room = Room { uuid: uuid, name: name.to_owned(), accessories: refs };
        let result_room = Room { uuid: room.uuid.clone(), name: room.name.clone(), accessories: copy_refs(&room.accessories) };
        let ghost before = *self;
        let n = self.contents[i].accessories.len();
        let mut k: usize = 0;
        while k < n
            invariant
                i < self.contents@.len(),
                before.wf(),
                self.homes@ == before.homes@,
                self.contents@.len() == before.contents@.len(),
                forall|j: int| 0 <= j < before.contents@.len() && j != i ==> #[trigger] self.contents@[j] == before.contents@[j],
                self.contents@[i as int].rooms == before.contents@[i as int].rooms,
                self.contents@[i as int].zones == before.contents@[i as int].zones,
                self.contents@[i as int].service_groups == before.contents@[i as int].service_groups,
                self.contents@[i as int].action_sets == before.contents@[i as int].action_sets,
                self.contents@[i as int].triggers == before.contents@[i as int].triggers,
                n == before.contents@[i as int].accessories@.len(),
                self.contents@[i as int].accessories@.len() == n,
                k <= n,
                room.uuid@ == uuid@ && room.name@ == name@,
                forall|m: int| 0 <= m < n ==> {
                    let a = #[trigger] self.contents@[i as int].accessories@[m];
                    let b = before.contents@[i as int].accessories@[m];
                    &&& a.uuid == b.uuid && a.name == b.name && a.category == b.category
                    &&& a.bridged_accessory_uuids == b.bridged_accessory_uuids
                    &&& if m < k && listed(accessories@, b.uuid@) {
                        a.room matches Some(e) && e@ == (uuid@, name@)
                    } else {
                        a.room == b.room
                    }
                },
            decreases n - k,
        {
            if is_listed(accessories, &self.contents[i].accessories[k].uuid) {
                self.contents[i].accessories[k].room = Some(EntityRef { uuid: room.uuid.clone(), name: room.name.clone() });
            }
            k = k + 1;
        }
        let ghost mid = *self;
        let m = self.contents[i].rooms.len();
        let mut j: usize = 0;
        while j < m
            invariant
                i < self.contents@.len(),
                self.homes@ == before.homes@,
                self.contents@.len() == before.contents@.len(),
                forall|q: int| 0 <= q < before.contents@.len() && q != i ==> #[trigger] self.contents@[q] == before.contents@[q],
                self.contents@[i as int].accessories == mid.contents@[i as int].accessories,
                self.contents@[i as int].zones == before.contents@[i as int].zones,
                self.contents@[i as int].service_groups == before.contents@[i as int].service_groups,
                self.contents@[i as int].action_sets == before.contents@[i as int].action_sets,
                self.contents@[i as int].triggers == before.contents@[i as int].triggers,
                m == before.contents@[i as int].rooms@.len(),
                self.contents@[i as int].rooms@.len() == m,
                j <= m,
                forall|q: int| 0 <= q < m ==> {
                    let a = #[trigger] self.contents@[i as int].rooms@[q];
                    let b = before.contents@[i as int].rooms@[q];
                    &&& a.uuid == b.uuid && a.name == b.name
                    &&& if q < j {
                        ref_views(a.accessories@) == unlisted_views(b.accessories@, accessories@)
                    } else {
                        a.accessories == b.accessories
                    }
                },
            decreases m - j,
        {
            let stripped = without_listed(&self.contents[i].rooms[j].accessories, accessories);
            self.contents[i].rooms[j].accessories = stripped;
            j = j + 1;
        }
        let ghost stripped_rooms = self.contents@[i as int].rooms@;
        self.contents[i].rooms.push(room);
        proof {
            assert(room_refs(stripped_rooms) =~= room_refs(before.contents@[i as int].rooms@));
            assert(room_refs(self.contents@[i as int].rooms@) =~= room_refs(before.contents@[i as int].rooms@).push((uuid@, name@)));
            assert forall|a: int, m: int| 0 <= a < self.contents@.len() && 0 <= m < self.contents@[a].accessories@.len()
                implies #[trigger] self.contents@[a].accessories@[m].bridge_consistent() by {
                if a != i {
                    assert(self.contents@[a] == before.contents@[a]);
                } else {
                    assert(before.contents@[a].accessories@[m].bridge_consistent());
                }
            }
        }
        Ok((copy_home(&self.homes[i]), result_room))
    }
}


/// The references of `v` whose uuid is not listed, as views.
pub open spec fn unlisted_views(v: Seq<EntityRef>, uuids: Seq<String>) -> Seq<(Seq<char>, Seq<char>)> {
    ref_views(v).filter(|e: (Seq<char>, Seq<char>)| !listed(uuids, e.0))
}

/// Removing the room `gone` with the accessory list `uuids` detaches `a`:
/// it is in that room, and the list is empty or names it.
pub open spec fn detached(a: Accessory, gone: Seq<char>, uuids: Seq<String>) -> bool {
    a.room matches Some(e) && e.uuid@ == gone && (uuids.len() == 0 || listed(uuids, a.uuid@))
}

/// Every uuid of `uuids` is one of the references in `v`.
pub open spec fn all_in_room(v: Seq<EntityRef>, uuids: Seq<String>) -> bool {
    forall|m: int| 0 <= m < uuids.len() ==> in_refs(v, (#[trigger] uuids[m])@)
}

/// One of the references in `v` has the uuid `u`.
pub open spec fn in_refs(v: Seq<EntityRef>, u: Seq<char>) -> bool {
    exists|k: int| 0 <= k < v.len() && (#[trigger] v[k]).uuid@ == u
}

fn all_listed_in_room(v: &Vec<EntityRef>, uuids: &Vec<String>) -> (r: bool)
    ensures
        r == all_in_room(v@, uuids@),
{
    let mut m: usize = 0;
    while m < uuids.len()
        invariant
            m <= uuids@.len(),
            forall|j: int| 0 <= j < m ==> in_refs(v@, (#[trigger] uuids@[j])@),
        decreases uuids@.len() - m,
    {
        let mut found = false;
        let mut k: usize = 0;
        while k < v.len()
            invariant
                m < uuids@.len(),
                k <= v@.len(),
                found ==> in_refs(v@, uuids@[m as int]@),
                !found ==> forall|j: int| 0 <= j < k ==> (#[trigger] v@[j]).uuid@ != uuids@[m as int]@,
            decreases v@.len() - k,
        {
            if v[k].uuid == uuids[m] {
                assert(v@[k as int].uuid@ == uuids@[m as int]@);
                found = true;
            }
            k = k + 1;
        }
        if !found {
            assert(!in_refs(v@, uuids@[m as int]@));
            return false;
        }
        m = m + 1;
    }
    true
}

fn without_listed(v: &Vec<EntityRef>, uuids: &Vec<String>) -> (r: Vec<EntityRef>)
    ensures
        ref_views(r@) == unlisted_views(v@, uuids@),
{
    let ghost pred = |e: (Seq<char>, Seq<char>)| !listed(uuids@, e.0);
    let mut r: Vec<EntityRef> = Vec::new();
    let mut i: usize = 0;
    while i < v.len()
        invariant
            i <= v@.len(),
            pred == (|e: (Seq<char>, Seq<char>)| !listed(uuids@, e.0)),
            ref_views(r@) == ref_views(v@.subrange(0, i as int)).filter(pred),
        decreases v@.len() - i,
    {
        let drop = is_listed(uuids, &v[i].uuid);
        let ghost old_r = r@;
        let ghost f = ref_views(v@.subrange(0, i as int)).filter(pred);
        proof {
            let w = ref_views(v@.subrange(0, i + 1));
            assert(w.drop_last() =~= ref_views(v@.subrange(0, i as int)));
            assert(w.last() == v@[i as int]@);
            reveal_with_fuel(Seq::filter, 1);
        }
        if !drop {
            let e = EntityRef { uuid: v[i].uuid.clone(), name: v[i].name.clone() };
            r.push(e);
            assert(ref_views(r@) =~= ref_views(old_r).push(e@));
        }
        i = i + 1;
    }
    assert(v@.subrange(0, i as int) =~= v@);
    r
}

impl HKServer {
    /// Removes or empties the room that `key` identifies, by uuid or exact
    /// name, in the home that `home` selects. With no accessories listed the
    /// room goes and every accessory in it is detached; otherwise the listed
    /// accessories, which must all be in the room, are detached from it and
    /// the room stays. No such room gives `NotFound`; a listed accessory that
    /// is not in the room gives `FailedPrecondition`. On any error nothing
    /// changes. The room is returned as it stands after the change.
    pub fn remove_room(&mut self, home: &str, key: &str, accessories: &Vec<String>) -> (r: Result<(Home, Room), Code>)
        requires
            old(self).wf(),
        ensures
            final(self).wf(),
            final(self).homes@ == old(self).homes@,
            match home_selection(old(self).homes@, home@) {
                Err(c) => r == Err::<(Home, Room), Code>(c) && *final(self) == *old(self),
                Ok(i) => {
                    let rooms = old(self).contents@[i].rooms@;
                    let j = room_index(room_refs(rooms), key@);
                    if j < 0 {
                        r == Err::<(Home, Room), Code>(Code::NotFound) && *final(self) == *old(self)
                    } else if accessories@.len() > 0 && !all_in_room(rooms[j].accessories@, accessories@) {
                        r == Err::<(Home, Room), Code>(Code::FailedPrecondition) && *final(self) == *old(self)
                    } else {
                        let gone = rooms[j].uuid@;
                        &&& r matches Ok((h, room))
                        &&& h.uuid@ == old(self).homes@[i].uuid@ && h.name@ == old(self).homes@[i].name@
                        &&& room.uuid@ == gone && room.name@ == rooms[j].name@
                        &&& final(self).contents@.len() == old(self).contents@.len()
                        &&& forall|m: int| 0 <= m < old(self).contents@.len() && m != i ==> #[trigger] final(self).contents@[m] == old(self).contents@[m]
                        &&& if accessories@.len() == 0 {
                            &&& room_refs(final(self).contents@[i].rooms@) == room_refs(rooms).remove(j)
                            &&& room.accessories@.len() == 0
                        } else {
                            &&& room_refs(final(self).contents@[i].rooms@) == room_refs(rooms)
                            &&& ref_views(room.accessories@) == unlisted_views(rooms[j].accessories@, accessories@)
                            &&& ref_views(final(self).contents@[i].rooms@[j].accessories@) == ref_views(room.accessories@)
                        }
                        &&& final(self).contents@[i].accessories@.len() == old(self).contents@[i].accessories@.len()
                        &&& forall|k: int| 0 <= k < old(self).contents@[i].accessories@.len() ==> {
                            let a = #[trigger] final(self).contents@[i].accessories@[k];
                            let b = old(self).contents@[i].accessories@[k];
                            &&& a.uuid == b.uuid && a.name == b.name && a.category == b.category
                            &&& a.bridged_accessory_uuids == b.bridged_accessory_uuids
                            &&& if detached(b, gone, accessories@) {
                                a.room is None
                            } else {
                                a.room == b.room
                            }
                        }
                    }
                },
            },
    {
        let i = match select_home(&self.homes, home) {
            Ok(i) => i,
            Err(c) => return Err(c),
        };
        let j = match find_room(&self.contents[i].rooms, key) {
            Some(j) => j,
            None => return Err(Code::NotFound),
        };
        let all = accessories.len() == 0;
        if !all && !all_listed_in_room(&self.contents[i].rooms[j].accessories, accessories) {
            return Err(Code::FailedPrecondition);
        }
        let gone = self.contents[i].rooms[j].uuid.clone();
        let ghost before = *self;
        let n = self.contents[i].accessories.len();
        let mut k: usize = 0;
        while k < n
            invariant
                i < self.contents@.len(),
                j < before.contents@[i as int].rooms@.len(),
                before.wf(),
                all == (accessories@.len() == 0),
                gone@ == before.contents@[i as int].rooms@[j as int].uuid@,
                self.homes@ == before.homes@,
                self.contents@.len() == before.contents@.len(),
                forall|m: int| 0 <= m < before.contents@.len() && m != i ==> #[trigger] self.contents@[m] == before.contents@[m],
                self.contents@[i as int].rooms == before.contents@[i as int].rooms,
                self.contents@[i as int].zones == before.contents@[i as int].zones,
                self.contents@[i as int].service_groups == before.contents@[i as int].service_groups,
                self.contents@[i as int].action_sets == before.contents@[i as int].action_sets,
                self.contents@[i as int].triggers == before.contents@[i as int].triggers,
                n == before.contents@[i as int].accessories@.len(),
                self.contents@[i as int].accessories@.len() == n,
                k <= n,
                forall|m: int| 0 <= m < n ==> {
                    let a = #[trigger] self.contents@[i as int].accessories@[m];
                    let b = before.contents@[i as int].accessories@[m];
                    &&& a.uuid == b.uuid && a.name == b.name && a.category == b.category
                    &&& a.bridged_accessory_uuids == b.bridged_accessory_uuids
                    &&& if m < k && detached(b, gone@, accessories@) {
                        a.room is None
                    } else {
                        a.room == b.room
                    }
                },
            decreases n - k,
        {
            let detach = match &self.contents[i].accessories[k].room {
                Some(e) => e.uuid == gone && (all || is_listed(accessories, &self.contents[i].accessories[k].uuid)),
                None => false,
            };
            if detach {
                self.contents[i].accessories[k].room = None;
            }
            k = k + 1;
        }
        let name = self.contents[i].rooms[j].name.clone();
        let result_room = if all {
            let ghost rooms_before = self.contents@[i as int].rooms@;
            self.contents[i].rooms.remove(j);
            proof {
                assert(room_refs(self.contents@[i as int].rooms@) =~= room_refs(rooms_before).remove(j as int));
            }
            Room { uuid: gone, name: name, accessories: Vec::new() }
        } else {
            let kept = without_listed(&self.contents[i].rooms[j].accessories, accessories);
            let copy = copy_refs(&kept);
            let ghost rooms_before = self.contents@[i as int].rooms@;
            self.contents[i].rooms[j].accessories = kept;
            proof {
                assert(room_refs(self.contents@[i as int].rooms@) =~= room_refs(rooms_before));
            }
            Room { uuid: gone, name: name, accessories: copy }
        };
        proof {
            assert forall|a: int, m: int| 0 <= a < self.contents@.len() && 0 <= m < self.contents@[a].accessories@.len()
                implies #[trigger] self.contents@[a].accessories@[m].bridge_consistent() by {
                if a != i {
                    assert(self.contents@[a] == before.contents@[a]);
                } else {
                    assert(before.contents@[a].accessories@[m].bridge_consistent());
                }
            }
        }
        Ok((copy_home(&self.homes[i]), result_room))
    }
}

/// Adding a room named `n` and then removing the room that `n` identifies
/// gives back the rooms there were, in order, provided no room had that name
/// or that uuid before.
pub proof fn lemma_add_then_remove_room(rooms: Seq<(Seq<char>, Seq<char>)>, uuid: Seq<char>, n: Seq<char>)
    requires
        !name_taken(rooms, n),
        forall|j: int| 0 <= j < rooms.len() ==> (#[trigger] rooms[j]).0 != n,
    ensures
        room_index(rooms.push((uuid, n)), n) == rooms.len(),
        rooms.push((uuid, n)).remove(rooms.len() as int) == rooms,
{
    let added = rooms.push((uuid, n));
    assert forall|m: int| 0 <= m < rooms.len() implies !identifies(#[trigger] added[m], n) by {
        assert(added[m] == rooms[m]);
        assert(rooms[m].1 != n);
    }
    lemma_room_index_first(added, n, rooms.len() as int);
    assert(added.remove(rooms.len() as int) =~= rooms);
}

} // verus!
