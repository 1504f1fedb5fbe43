use vstd::prelude::*;
use crate::dispatch::{text_views, Request};
use crate::schema::Operation;
use crate::filter::{deref_all, home_selection, selected};
use crate::render::{
    accessory_lines, bool_text, characteristic_info_lines, decimal, print_accessory, print_characteristic,
    print_service, print_trigger, service_lines, spaces, trigger_lines, u64_text,
};
use crate::schema::{
    Accessory, Action, ActionSet, ActionSetType, Code, EntityRef, Home, HubState, Room, Service, ServiceGroup,
    Trigger, Zone,
};
use crate::service::{
    accessory_kept, all_in_room, all_known, all_services, kept_triggers, name_taken, room_index, room_refs, service_kept,
    zone_kept, HKServer,
};
use crate::transport::{Reply, ReplyView};

verus! {

/// An entity that shows as lines of text.
pub trait Render {
    spec fn lines(&self) -> Seq<Seq<char>>;

    fn render(&self) -> (r: Vec<String>)
        ensures
            text_views(r@) == self.lines(),
    ;
}

/// The lines of a run of entities, one after the other.
pub open spec fn all_lines<T: Render>(items: Seq<T>) -> Seq<Seq<char>>
    decreases items.len(),
{
    if items.len() == 0 {
        Seq::empty()
    } else {
        all_lines(items.drop_last()) + items.last().lines()
    }
}

fn push_line(r: &mut Vec<String>, l: String)
    ensures
        text_views(final(r)@) == text_views(old(r)@).push(l@),
{
    r.push(l);
    assert(text_views(final(r)@) =~= text_views(old(r)@).push(l@));
}

fn push_all(r: &mut Vec<String>, lines: Vec<String>)
    ensures
        text_views(final(r)@) == text_views(old(r)@) + text_views(lines@),
{
    let ghost before = text_views(r@);
    let mut k: usize = 0;
    while k < lines.len()
        invariant
            k <= lines@.len(),
            text_views(r@) == before + text_views(lines@.subrange(0, k as int)),
        decreases lines@.len() - k,
    {
        let ghost b2 = text_views(r@);
        r.push(lines[k].clone());
        k = k + 1;
        assert(text_views(r@) =~= before + text_views(lines@.subrange(0, k as int))) by {
            assert(text_views(r@) =~= b2.push(lines@[k - 1]@));
            assert(text_views(lines@.subrange(0, k as int)) =~= text_views(lines@.subrange(0, k - 1)).push(lines@[k - 1]@));
        }
    }
    assert(lines@.subrange(0, k as int) =~= lines@);
}

/// Appends the lines of each entity, in order.
pub fn render_all<T: Render>(r: &mut Vec<String>, items: &Vec<&T>)
    ensures
        text_views(final(r)@) == text_views(old(r)@) + all_lines(deref_all(items@)),
{
    let ghost start = text_views(r@);
    let mut i: usize = 0;
    while i < items.len()
        invariant
            i <= items@.len(),
            text_views(r@) == start + all_lines(deref_all(items@.subrange(0, i as int))),
        decreases items@.len() - i,
    {
        let lines = items[i].render();
        push_all(r, lines);
        proof {
            let t = deref_all(items@.subrange(0, i + 1));
            assert(t.drop_last() =~= deref_all(items@.subrange(0, i as int)));
            assert(t.last() == *items@[i as int]);
        }
        i = i + 1;
        assert(text_views(r@) =~= start + all_lines(deref_all(items@.subrange(0, i as int))));
    }
    assert(items@.subrange(0, i as int) =~= items@);
}

fn cat(a: &str, b: &str) -> (r: String)
    ensures
        r@ == a@ + b@,
{
    let mut s = a.to_owned();
    s.append(b);
    s
}

fn cat3(a: &str, b: &str, c: &str) -> (r: String)
    ensures
        r@ == a@ + b@ + c@,
{
    let mut s = cat(a, b);
    s.append(c);
    s
}

fn count_line(prefix: &str, n: usize, suffix: &str) -> (r: String)
    ensures
        r@ == prefix@ + decimal(n as nat) + suffix@,
{
    cat3(prefix, u64_text(n as u64).as_str(), suffix)
}

/// How a hub state shows.
pub open spec fn hub_text(s: HubState) -> Seq<char> {
    match s {
        HubState::Invalid => "Unknown"@,
        HubState::Connected => "Connected"@,
        HubState::Disconnected => "Disconnected"@,
        HubState::NotAvailable => "Not Available"@,
    }
}

impl Render for Home {
    open spec fn lines(&self) -> Seq<Seq<char>> {
        seq![
            "Home: "@ + self.name@ + (if self.is_primary { " (Primary)"@ } else { ""@ }),
            "  UUID:      "@ + self.uuid@,
            "  Hub State: "@ + hub_text(self.hub_state),
        ]
    }

    fn render(&self) -> (r: Vec<String>) {
        let mut r: Vec<String> = Vec::new();
        push_line(&mut r, cat3("Home: ", self.name.as_str(), if self.is_primary { " (Primary)" } else { "" }));
        push_line(&mut r, cat("  UUID:      ", self.uuid.as_str()));
        let hub = match self.hub_state {
            HubState::Invalid => "Unknown",
            HubState::Connected => "Connected",
            HubState::Disconnected => "Disconnected",
            HubState::NotAvailable => "Not Available",
        };
        push_line(&mut r, cat("  Hub State: ", hub));
        assert(text_views(r@) =~= self.lines());
        r
    }
}

impl Render for EntityRef {
    open spec fn lines(&self) -> Seq<Seq<char>> {
        seq!["      Accessory: "@ + self.name@, "        UUID: "@ + self.uuid@]
    }

    fn render(&self) -> (r: Vec<String>) {
        let mut r: Vec<String> = Vec::new();
        push_line(&mut r, cat("      Accessory: ", self.name.as_str()));
        push_line(&mut r, cat("        UUID: ", self.uuid.as_str()));
        assert(text_views(r@) =~= self.lines());
        r
    }
}

fn refs(v: &Vec<EntityRef>) -> (r: Vec<&EntityRef>)
    ensures
        deref_all(r@) == v@,
{
    let mut r: Vec<&EntityRef> = Vec::new();
    let mut i: usize = 0;
    while i < v.len()
        invariant
            i <= v@.len(),
            deref_all(r@) == v@.subrange(0, i as int),
        decreases v@.len() - i,
    {
        let x = &v[i];
        let ghost before = r@;
        r.push(x);
        assert(r@ == before.push(x));
        assert(v@.subrange(0, i + 1) =~= v@.subrange(0, i as int).push(v@[i as int]));
        assert(deref_all(r@) =~= deref_all(before).push(*x));
        i = i + 1;
    }
    assert(v@.subrange(0, i as int) =~= v@);
    r
}

impl Render for Room {
    open spec fn lines(&self) -> Seq<Seq<char>> {
        seq![
            "  Room: "@ + self.name@,
            "    UUID:         "@ + self.uuid@,
            "    Accessories: ("@ + decimal(self.accessories@.len()) + ")"@,
        ] + all_lines(self.accessories@)
    }

    fn render(&self) -> (r: Vec<String>) {
        let mut r: Vec<String> = Vec::new();
        push_line(&mut r, cat("  Room: ", self.name.as_str()));
        push_line(&mut r, cat("    UUID:         ", self.uuid.as_str()));
        push_line(&mut r, count_line("    Accessories: (", self.accessories.len(), ")"));
        render_all(&mut r, &refs(&self.accessories));
        assert(text_views(r@) =~= self.lines());
        r
    }
}

fn ref_lines(prefix: &str, v: &Vec<EntityRef>) -> (r: Vec<String>)
    ensures
        text_views(r@) == v@.map_values(|e: EntityRef| prefix@ + e.name@ + " ("@ + e.uuid@ + ")"@),
{
    let mut r: Vec<String> = Vec::new();
    let mut i: usize = 0;
    while i < v.len()
        invariant
            i <= v@.len(),
            text_views(r@) == v@.subrange(0, i as int).map_values(|e: EntityRef| prefix@ + e.name@ + " ("@ + e.uuid@ + ")"@),
        decreases v@.len() - i,
    {
        let mut l = cat(prefix, v[i].name.as_str());
        l.append(" (");
        l.append(v[i].uuid.as_str());
        l.append(")");
        push_line(&mut r, l);
        i = i + 1;
        assert(text_views(r@) =~= v@.subrange(0, i as int).map_values(|e: EntityRef| prefix@ + e.name@ + " ("@ + e.uuid@ + ")"@));
    }
    assert(v@.subrange(0, i as int) =~= v@);
    r
}

impl Render for Zone {
    open spec fn lines(&self) -> Seq<Seq<char>> {
        seq!["  Zone: "@ + self.name@, "    UUID: "@ + self.uuid@, "    Rooms:"@]
            + self.rooms@.map_values(|e: EntityRef| "      Room: "@ + e.name@ + " ("@ + e.uuid@ + ")"@)
    }

    fn render(&self) -> (r: Vec<String>) {
        let mut r: Vec<String> = Vec::new();
        push_line(&mut r, cat("  Zone: ", self.name.as_str()));
        push_line(&mut r, cat("    UUID: ", self.uuid.as_str()));
        push_line(&mut r, "    Rooms:".to_owned());
        push_all(&mut r, ref_lines("      Room: ", &self.rooms));
        assert(text_views(r@) =~= self.lines());
        r
    }
}

impl Render for ServiceGroup {
    open spec fn lines(&self) -> Seq<Seq<char>> {
        seq![
            "  Service Group: "@ + self.name@,
            "    UUID: "@ + self.uuid@,
            "    Services: ("@ + decimal(self.services@.len()) + ")"@,
        ] + self.services@.map_values(|e: EntityRef| "      Service: "@ + e.name@ + " ("@ + e.uuid@ + ")"@)
    }

    fn render(&self) -> (r: Vec<String>) {
        let mut r: Vec<String> = Vec::new();
        push_line(&mut r, cat("  Service Group: ", self.name.as_str()));
        push_line(&mut r, cat("    UUID: ", self.uuid.as_str()));
        push_line(&mut r, count_line("    Services: (", self.services.len(), ")"));
        push_all(&mut r, ref_lines("      Service: ", &self.services));
        assert(text_views(r@) =~= self.lines());
        r
    }
}

impl Render for Accessory {
    open spec fn lines(&self) -> Seq<Seq<char>> {
        accessory_lines(*self)
    }

    fn render(&self) -> (r: Vec<String>) {
        print_accessory(self)
    }
}

impl Render for Service {
    open spec fn lines(&self) -> Seq<Seq<char>> {
        service_lines(*self, 2)
    }

    fn render(&self) -> (r: Vec<String>) {
        print_service(self, 2)
    }
}

impl Render for Trigger {
    open spec fn lines(&self) -> Seq<Seq<char>> {
        trigger_lines(*self)
    }

    fn render(&self) -> (r: Vec<String>) {
        print_trigger(self)
    }
}

/// The name of an action set type.
pub open spec fn action_set_type_text(t: ActionSetType) -> Seq<char> {
    match t {
        ActionSetType::Unknown => "Unknown"@,
        ActionSetType::User => "User"@,
        ActionSetType::HomeArrival => "HomeArrival"@,
        ActionSetType::HomeDeparture => "HomeDeparture"@,
        ActionSetType::Sleep => "Sleep"@,
        ActionSetType::WakeUp => "WakeUp"@,
        ActionSetType::TriggerOwned => "TriggerOwned"@,
    }
}

impl Render for Action {
    open spec fn lines(&self) -> Seq<Seq<char>> {
        match self {
            Action::Generic { uuid } => seq!["      Action:"@, "        UUID: "@ + uuid@],
            Action::Characteristic { uuid, characteristic } => seq!["      Action:"@, "        UUID: "@ + uuid@]
                + characteristic_info_lines(*characteristic, spaces(8)),
        }
    }

    fn render(&self) -> (r: Vec<String>) {
        let mut r: Vec<String> = Vec::new();
        push_line(&mut r, "      Action:".to_owned());
        match self {
            Action::Generic { uuid } => {
                push_line(&mut r, cat("        UUID: ", uuid.as_str()));
            },
            Action::Characteristic { uuid, characteristic } => {
                push_line(&mut r, cat("        UUID: ", uuid.as_str()));
                push_all(&mut r, print_characteristic(characteristic, 8));
            },
        }
        assert(text_views(r@) =~= self.lines());
        r
    }
}

fn action_refs(v: &Vec<Action>) -> (r: Vec<&Action>)
    ensures
        deref_all(r@) == v@,
{
    let mut r: Vec<&Action> = Vec::new();
    let mut i: usize = 0;
    while i < v.len()
        invariant
            i <= v@.len(),
            deref_all(r@) == v@.subrange(0, i as int),
        decreases v@.len() - i,
    {
        let x = &v[i];
        let ghost before = r@;
        r.push(x);
        assert(r@ == before.push(x));
        assert(v@.subrange(0, i + 1) =~= v@.subrange(0, i as int).push(v@[i as int]));
        assert(deref_all(r@) =~= deref_all(before).push(*x));
        i = i + 1;
    }
    assert(v@.subrange(0, i as int) =~= v@);
    r
}

impl Render for ActionSet {
    open spec fn lines(&self) -> Seq<Seq<char>> {
        seq![
            "  Action Set: "@ + self.name@,
            "    UUID: "@ + self.uuid@,
            "    Type: "@ + action_set_type_text(self.action_set_type),
            "    Is Executing: "@ + bool_text(self.is_executing),
            "    Actions: ("@ + decimal(self.actions@.len()) + ")"@,
        ] + all_lines(self.actions@)
    }

    fn render(&self) -> (r: Vec<String>) {
        let mut r: Vec<String> = Vec::new();
        push_line(&mut r, cat("  Action Set: ", self.name.as_str()));
        push_line(&mut r, cat("    UUID: ", self.uuid.as_str()));
        let t = match self.action_set_type {
            ActionSetType::Unknown => "Unknown",
            ActionSetType::User => "User",
            ActionSetType::HomeArrival => "HomeArrival",
            ActionSetType::HomeDeparture => "HomeDeparture",
            ActionSetType::Sleep => "Sleep",
            ActionSetType::WakeUp => "WakeUp",
            ActionSetType::TriggerOwned => "TriggerOwned",
        };
        push_line(&mut r, cat("    Type: ", t));
        push_line(&mut r, cat("    Is Executing: ", if self.is_executing { "true" } else { "false" }));
        push_line(&mut r, count_line("    Actions: (", self.actions.len(), ")"));
        render_all(&mut r, &action_refs(&self.actions));
        assert(text_views(r@) =~= self.lines());
        r
    }
}

/// The message that goes with an error kind.
pub open spec fn failure_message(c: Code) -> Seq<char> {
    match c {
        Code::InvalidArgument => "invalid argument"@,
        Code::NotFound => "not found"@,
        Code::AlreadyExists => "already exists"@,
        Code::FailedPrecondition => "failed precondition"@,
        Code::Unavailable => "unavailable"@,
        Code::DeadlineExceeded => "deadline exceeded"@,
        Code::Internal => "internal error"@,
        Code::Transport => "transport failure"@,
    }
}

/// The failure reply of an error kind.
pub fn failure(c: Code) -> (r: Reply)
    ensures
        r@ == ReplyView::Failure(c, failure_message(c)),
{
    let m = match c {
        Code::InvalidArgument => "invalid argument",
        Code::NotFound => "not found",
        Code::AlreadyExists => "already exists",
        Code::FailedPrecondition => "failed precondition",
        Code::Unavailable => "unavailable",
        Code::DeadlineExceeded => "deadline exceeded",
        Code::Internal => "internal error",
        Code::Transport => "transport failure",
    };
    Reply::Failure { code: c, message: m.to_owned() }
}

/// The line that names the home of a response.
pub open spec fn home_line(h: Home) -> Seq<char> {
    "Home: "@ + h.name@
}

/// The reply to an enumeration inside a selected home: the failure of the
/// selection, or a heading and the lines of the entities found.
pub open spec fn in_home_reply(sel: Result<int, Code>, heading: spec_fn(int) -> Seq<Seq<char>>, body: spec_fn(int) -> Seq<Seq<char>>) -> ReplyView {
    match sel {
        Ok(i) => ReplyView::Lines(heading(i) + body(i)),
        Err(c) => ReplyView::Failure(c, failure_message(c)),
    }
}

impl HKServer {
    /// Answers a request of an enumeration with the lines of what it finds,
    /// or with the failure of its home selection.
    pub fn respond(&self, req: &Request) -> (r: Option<Reply>)
        requires
            self.wf(),
        ensures
            match *req {
                Request::EnumerateHomes { name_filter } =>
                    r matches Some(rep) && rep@ == ReplyView::Lines(all_lines(selected(self.homes@, name_filter@))),
                Request::EnumerateRooms { home, name_filter } => r matches Some(rep) && rep@ == in_home_reply(
                    home_selection(self.homes@, home@),
                    |i: int| seq![home_line(self.homes@[i]), "Rooms:"@],
                    |i: int| all_lines(selected(self.contents@[i].rooms@, name_filter@))),
                Request::EnumerateZones { home, room_filter, name_filter } => r matches Some(rep) && rep@ == in_home_reply(
                    home_selection(self.homes@, home@),
                    |i: int| seq!["Zones ("@ + decimal(self.contents@[i].zones@.filter(|z: Zone| zone_kept(z, room_filter@, name_filter@)).len()) + "):"@],
                    |i: int| all_lines(self.contents@[i].zones@.filter(|z: Zone| zone_kept(z, room_filter@, name_filter@)))),
                Request::EnumerateAccessories { home, zone_filter, room_filter, name_filter } => r matches Some(rep) && rep@ == in_home_reply(
                    home_selection(self.homes@, home@),
                    |i: int| seq!["Accessories: ("@ + decimal(self.contents@[i].accessories@.filter(
                        |a: Accessory| accessory_kept(a, self.contents@[i].zones@, zone_filter@, room_filter@, name_filter@)).len()) + ")"@],
                    |i: int| all_lines(self.contents@[i].accessories@.filter(
                        |a: Accessory| accessory_kept(a, self.contents@[i].zones@, zone_filter@, room_filter@, name_filter@)))),
                Request::EnumerateServices { home, types, name_filter } => r matches Some(rep) && rep@ == in_home_reply(
                    home_selection(self.homes@, home@),
                    |i: int| seq![home_line(self.homes@[i]), "Services: ("@ + decimal(all_services(self.contents@[i].accessories@).filter(
                        |s: Service| service_kept(s, types@, name_filter@)).len()) + ")"@],
                    |i: int| all_lines(all_services(self.contents@[i].accessories@).filter(|s: Service| service_kept(s, types@, name_filter@)))),
                Request::EnumerateServiceGroups { home, name_filter } => r matches Some(rep) && rep@ == in_home_reply(
                    home_selection(self.homes@, home@),
                    |i: int| seq![home_line(self.homes@[i]), "Service Groups: ("@ + decimal(selected(self.contents@[i].service_groups@, name_filter@).len()) + ")"@],
                    |i: int| all_lines(selected(self.contents@[i].service_groups@, name_filter@))),
                Request::EnumerateActionSets { home, name_filter } => r matches Some(rep) && rep@ == in_home_reply(
                    home_selection(self.homes@, home@),
                    |i: int| seq![home_line(self.homes@[i]), "Action Sets ("@ + decimal(selected(self.contents@[i].action_sets@, name_filter@).len()) + "):"@],
                    |i: int| all_lines(selected(self.contents@[i].action_sets@, name_filter@))),
                Request::EnumerateTriggers { home, name_filter, enabled_filter, before, after } => r matches Some(rep) && rep@ == in_home_reply(
                    home_selection(self.homes@, home@),
                    |i: int| seq![home_line(self.homes@[i]), "Triggers ("@ + decimal(kept_triggers(self.contents@[i].triggers@, name_filter@, enabled_filter, before, after).len()) + "):"@],
                    |i: int| all_lines(kept_triggers(self.contents@[i].triggers@, name_filter@, enabled_filter, before, after))),
                Request::AddRemoveRoom { .. } => r is None,
            },
    {
        match req {
            Request::EnumerateHomes { name_filter } => {
                let homes = self.enumerate_homes(name_filter.as_str());
                let mut lines: Vec<String> = Vec::new();
                render_all(&mut lines, &homes);
                assert(text_views(lines@) == all_lines(selected(self.homes@, name_filter@)));
                let rep = Reply::Lines(lines);
                assert(rep@ == ReplyView::Lines(all_lines(selected(self.homes@, name_filter@))));
                Some(rep)
            },
            Request::EnumerateRooms { home, name_filter } => match self.enumerate_rooms(home.as_str(), name_filter.as_str()) {
                Ok((h, rooms)) => {
                    let mut lines: Vec<String> = Vec::new();
                    push_line(&mut lines, cat("Home: ", h.name.as_str()));
                    push_line(&mut lines, "Rooms:".to_owned());
                    render_all(&mut lines, &rooms);
                    proof {
                        let i = home_selection(self.homes@, home@)->Ok_0;
                        assert(text_views(lines@) =~= seq![home_line(self.homes@[i]), "Rooms:"@]
                            + all_lines(selected(self.contents@[i].rooms@, name_filter@)));
                    }
                    Some(Reply::Lines(lines))
                },
                Err(c) => Some(failure(c)),
            },
            Request::EnumerateZones { home, room_filter, name_filter } =>
                match self.enumerate_zones(home.as_str(), room_filter.as_str(), name_filter.as_str()) {
                    Ok((_, zones)) => {
                        let mut lines: Vec<String> = Vec::new();
                        push_line(&mut lines, count_line("Zones (", zones.len(), "):"));
                        render_all(&mut lines, &zones);
                        proof {
                            let i = home_selection(self.homes@, home@)->Ok_0;
                            let kept = self.contents@[i].zones@.filter(|z: Zone| zone_kept(z, room_filter@, name_filter@));
                            assert(text_views(lines@) =~= seq!["Zones ("@ + decimal(kept.len()) + "):"@] + all_lines(kept));
                        }
                        Some(Reply::Lines(lines))
                    },
                    Err(c) => Some(failure(c)),
                },
            Request::EnumerateAccessories { home, zone_filter, room_filter, name_filter } =>
                match self.enumerate_accessories(home.as_str(), zone_filter.as_str(), room_filter.as_str(), name_filter.as_str()) {
                    Ok((_, accs)) => {
                        let mut lines: Vec<String> = Vec::new();
                        push_line(&mut lines, count_line("Accessories: (", accs.len(), ")"));
                        render_all(&mut lines, &accs);
                        proof {
                            let i = home_selection(self.homes@, home@)->Ok_0;
                            let kept = self.contents@[i].accessories@.filter(
                                |a: Accessory| accessory_kept(a, self.contents@[i].zones@, zone_filter@, room_filter@, name_filter@));
                            assert(text_views(lines@) =~= seq!["Accessories: ("@ + decimal(kept.len()) + ")"@] + all_lines(kept));
                        }
                        Some(Reply::Lines(lines))
                    },
                    Err(c) => Some(failure(c)),
                },
            Request::EnumerateServices { home, types, name_filter } =>
                match self.enumerate_services(home.as_str(), types, name_filter.as_str()) {
                    Ok((h, services)) => {
                        let mut lines: Vec<String> = Vec::new();
                        push_line(&mut lines, cat("Home: ", h.name.as_str()));
                        push_line(&mut lines, count_line("Services: (", services.len(), ")"));
                        render_all(&mut lines, &services);
                        proof {
                            let i = home_selection(self.homes@, home@)->Ok_0;
                            let kept = all_services(self.contents@[i].accessories@).filter(|s: Service| service_kept(s, types@, name_filter@));
                            assert(text_views(lines@) =~= seq![home_line(self.homes@[i]), "Services: ("@ + decimal(kept.len()) + ")"@] + all_lines(kept));
                        }
                        Some(Reply::Lines(lines))
                    },
                    Err(c) => Some(failure(c)),
                },
            Request::EnumerateServiceGroups { home, name_filter } =>
                match self.enumerate_service_groups(home.as_str(), name_filter.as_str()) {
                    Ok((h, groups)) => {
                        let mut lines: Vec<String> = Vec::new();
                        push_line(&mut lines, cat("Home: ", h.name.as_str()));
                        push_line(&mut lines, count_line("Service Groups: (", groups.len(), ")"));
                        render_all(&mut lines, &groups);
                        proof {
                            let i = home_selection(self.homes@, home@)->Ok_0;
                            let kept = selected(self.contents@[i].service_groups@, name_filter@);
                            assert(text_views(lines@) =~= seq![home_line(self.homes@[i]), "Service Groups: ("@ + decimal(kept.len()) + ")"@] + all_lines(kept));
                        }
                        Some(Reply::Lines(lines))
                    },
                    Err(c) => Some(failure(c)),
                },
            Request::EnumerateActionSets { home, name_filter } =>
                match self.enumerate_action_sets(home.as_str(), name_filter.as_str()) {
                    Ok((h, sets)) => {
                        let mut lines: Vec<String> = Vec::new();
                        push_line(&mut lines, cat("Home: ", h.name.as_str()));
                        push_line(&mut lines, count_line("Action Sets (", sets.len(), "):"));
                        render_all(&mut lines, &sets);
                        proof {
                            let i = home_selection(self.homes@, home@)->Ok_0;
                            let kept = selected(self.contents@[i].action_sets@, name_filter@);
                            assert(text_views(lines@) =~= seq![home_line(self.homes@[i]), "Action Sets ("@ + decimal(kept.len()) + "):"@] + all_lines(kept));
                        }
                        Some(Reply::Lines(lines))
                    },
                    Err(c) => Some(failure(c)),
                },
            Request::EnumerateTriggers { home, name_filter, enabled_filter, before, after } =>
                match self.enumerate_triggers(home.as_str(), name_filter.as_str(), *enabled_filter, *before, *after) {
                    Ok((h, triggers)) => {
                        let mut lines: Vec<String> = Vec::new();
                        push_line(&mut lines, cat("Home: ", h.name.as_str()));
                        push_line(&mut lines, count_line("Triggers (", triggers.len(), "):"));
                        render_all(&mut lines, &triggers);
                        proof {
                            let i = home_selection(self.homes@, home@)->Ok_0;
                            let kept = kept_triggers(self.contents@[i].triggers@, name_filter@, *enabled_filter, *before, *after);
                            assert(text_views(lines@) =~= seq![home_line(self.homes@[i]), "Triggers ("@ + decimal(kept.len()) + "):"@] + all_lines(kept));
                        }
                        Some(Reply::Lines(lines))
                    },
                    Err(c) => Some(failure(c)),
                },
            Request::AddRemoveRoom { .. } => None,
        }
    }
}

/// The line that answers a room change.
pub open spec fn room_change_line(home: Seq<char>, room: Seq<char>) -> Seq<char> {
    "Home: "@ + home + ", Room "@ + room
}

impl HKServer {
    /// Adds or removes a room, as `operation` says, and answers with the
    /// home and room changed, or with the failure; `uuid` is the identity
    /// the platform gives a new room.
    pub fn respond_room_change(
        &mut self,
        home: &str,
        name: &str,
        accessories: &Vec<String>,
        operation: Operation,
        uuid: String,
    ) -> (r: Reply)
        requires
            old(self).wf(),
        ensures
            final(self).wf(),
            match home_selection(old(self).homes@, home@) {
                Err(c) => r@ == ReplyView::Failure(c, failure_message(c)),
                Ok(i) => {
                    let rooms = old(self).contents@[i].rooms@;
                    let h = old(self).homes@[i].name@;
                    match operation {
                        Operation::Add => r@ == if name_taken(room_refs(rooms), name@) {
                            ReplyView::Failure(Code::AlreadyExists, failure_message(Code::AlreadyExists))
                        } else if !all_known(old(self).contents@[i].accessories@, accessories@) {
                            ReplyView::Failure(Code::NotFound, failure_message(Code::NotFound))
                        } else {
                            ReplyView::Lines(seq![room_change_line(h, name@)])
                        },
                        Operation::Remove => {
                            let j = room_index(room_refs(rooms), name@);
                            r@ == if j < 0 {
                                ReplyView::Failure(Code::NotFound, failure_message(Code::NotFound))
                            } else if accessories@.len() > 0 && !all_in_room(rooms[j].accessories@, accessories@) {
                                ReplyView::Failure(Code::FailedPrecondition, failure_message(Code::FailedPrecondition))
                            } else {
                                ReplyView::Lines(seq![room_change_line(h, rooms[j].name@)])
                            }
                        },
                    }
                },
            },
    {
        let outcome = match operation {
            Operation::Add => self.add_room(home, name, accessories, uuid),
            Operation::Remove => self.remove_room(home, name, accessories),
        };
        match outcome {
            Ok((h, room)) => {
                let mut line = cat("Home: ", h.name.as_str());
                line.append(", Room ");
                line.append(room.name.as_str());
                let mut lines: Vec<String> = Vec::new();
                push_line(&mut lines, line);
                assert(text_views(lines@) =~= seq![line@]);
                Reply::Lines(lines)
            },
            Err(c) => failure(c),
        }
    }
}

} // verus!
