use vstd::prelude::*;
use vstd::utf8::{decode_utf8, encode_utf8, valid_utf8};
use crate::dispatch::{text_views, Request};
use crate::wire::{le_u64_at, lemma_le_u64};
use crate::schema::{Code, EnabledFilter, Operation, ServiceType};
use vstd::utf8::{encode_utf8_decode_utf8, encode_utf8_valid_utf8};
use crate::wire::{
    encode_fields, field_views, fields_encoding, fields_fit, fields_of, le_bytes_u64, lemma_fields_round_trip, parse_fields,
    utf8_string,
};

verus! {

/// Field keys of a request.
pub const KEY_OPERATION_KIND: u8 = 1;
pub const KEY_HOME: u8 = 2;
pub const KEY_NAME: u8 = 3;
pub const KEY_ROOM_FILTER: u8 = 4;
pub const KEY_ZONE_FILTER: u8 = 5;
pub const KEY_SERVICE_TYPE: u8 = 6;
pub const KEY_ENABLED: u8 = 7;
pub const KEY_BEFORE: u8 = 8;
pub const KEY_AFTER: u8 = 9;
pub const KEY_ACCESSORY: u8 = 10;
pub const KEY_ROOM_OPERATION: u8 = 11;

/// Field keys of a reply.
pub const KEY_STATUS: u8 = 1;
pub const KEY_MESSAGE: u8 = 2;
pub const KEY_LINE: u8 = 3;

/// The wire value of a service type.
pub open spec fn service_type_code(t: ServiceType) -> u8 {
    match t {
        ServiceType::InvalidServiceType => 0,
        ServiceType::LightBulb => 1,
        ServiceType::LightSensor => 2,
        ServiceType::Switch => 3,
        ServiceType::Battery => 4,
        ServiceType::Outlet => 5,
        ServiceType::StatefulProgrammableSwitch => 6,
        ServiceType::StatelessProgrammableSwitch => 7,
        ServiceType::AirPurifier => 8,
        ServiceType::AirQualitySensor => 9,
        ServiceType::CarbonDioxideSensor => 10,
        ServiceType::CarbonMonoxideSensor => 11,
        ServiceType::SmokeSensor => 12,
        ServiceType::HeaterCooler => 13,
        ServiceType::TemperatureSensor => 14,
        ServiceType::Thermostat => 15,
        ServiceType::Fan => 16,
        ServiceType::FilterMaintenance => 17,
        ServiceType::HumidifierDehumidifier => 18,
        ServiceType::HumiditySensor => 19,
        ServiceType::VentilationFan => 20,
        ServiceType::Window => 21,
        ServiceType::WindowCovering => 22,
        ServiceType::Slats => 23,
        ServiceType::Faucet => 24,
        ServiceType::Valve => 25,
        ServiceType::IrrigationSystem => 26,
        ServiceType::LeakSensor => 27,
        ServiceType::Door => 28,
        ServiceType::Doorbell => 29,
        ServiceType::GarageDoorOpener => 30,
        ServiceType::LockManagement => 31,
        ServiceType::LockMechanism => 32,
        ServiceType::MotionSensor => 33,
        ServiceType::OccupancySensor => 34,
        ServiceType::SecuritySystem => 35,
        ServiceType::ContactSensor => 36,
        ServiceType::CameraControl => 37,
        ServiceType::CameraRtpStreamManagement => 38,
        ServiceType::Microphone => 39,
        ServiceType::Speaker => 40,
        ServiceType::Label => 41,
        ServiceType::AccessoryInformation => 42,
    }
}

fn type_code(t: ServiceType) -> (r: u8)
    ensures
        r == service_type_code(t),
{
    match t {
            ServiceType::InvalidServiceType => 0,
            ServiceType::LightBulb => 1,
            ServiceType::LightSensor => 2,
            ServiceType::Switch => 3,
            ServiceType::Battery => 4,
            ServiceType::Outlet => 5,
            ServiceType::StatefulProgrammableSwitch => 6,
            ServiceType::StatelessProgrammableSwitch => 7,
            ServiceType::AirPurifier => 8,
            ServiceType::AirQualitySensor => 9,
            ServiceType::CarbonDioxideSensor => 10,
            ServiceType::CarbonMonoxideSensor => 11,
            ServiceType::SmokeSensor => 12,
            ServiceType::HeaterCooler => 13,
            ServiceType::TemperatureSensor => 14,
            ServiceType::Thermostat => 15,
            ServiceType::Fan => 16,
            ServiceType::FilterMaintenance => 17,
            ServiceType::HumidifierDehumidifier => 18,
            ServiceType::HumiditySensor => 19,
            ServiceType::VentilationFan => 20,
            ServiceType::Window => 21,
            ServiceType::WindowCovering => 22,
            ServiceType::Slats => 23,
            ServiceType::Faucet => 24,
            ServiceType::Valve => 25,
            ServiceType::IrrigationSystem => 26,
            ServiceType::LeakSensor => 27,
            ServiceType::Door => 28,
            ServiceType::Doorbell => 29,
            ServiceType::GarageDoorOpener => 30,
            ServiceType::LockManagement => 31,
            ServiceType::LockMechanism => 32,
            ServiceType::MotionSensor => 33,
            ServiceType::OccupancySensor => 34,
            ServiceType::SecuritySystem => 35,
            ServiceType::ContactSensor => 36,
            ServiceType::CameraControl => 37,
            ServiceType::CameraRtpStreamManagement => 38,
            ServiceType::Microphone => 39,
            ServiceType::Speaker => 40,
            ServiceType::Label => 41,
            ServiceType::AccessoryInformation => 42,
    }
}

/// The wire value of an enabled filter.
pub open spec fn enabled_code(f: EnabledFilter) -> u8 {
    match f {
        EnabledFilter::NoFilter => 0,
        EnabledFilter::EnabledOnly => 1,
        EnabledFilter::DisabledOnly => 2,
    }
}

/// The wire value of a room operation.
pub open spec fn operation_code(o: Operation) -> u8 {
    match o {
        Operation::Add => 0,
        Operation::Remove => 1,
    }
}

/// A text field.
pub open spec fn text_field(key: u8, s: Seq<char>) -> (u8, Seq<u8>) {
    (key, encode_utf8(s))
}

/// A one-byte field.
pub open spec fn byte_field(key: u8, v: u8) -> (u8, Seq<u8>) {
    (key, seq![v])
}

/// The fields that carry a request: first its operation, then each of its
/// values under its own key; list values give one field per item.
pub open spec fn request_fields(r: Request) -> Seq<(u8, Seq<u8>)> {
    match r {
        Request::EnumerateHomes { name_filter } => seq![byte_field(KEY_OPERATION_KIND, 0), text_field(KEY_NAME, name_filter@)],
        Request::EnumerateRooms { home, name_filter } => seq![
            byte_field(KEY_OPERATION_KIND, 1), text_field(KEY_HOME, home@), text_field(KEY_NAME, name_filter@)],
        Request::EnumerateZones { home, room_filter, name_filter } => seq![
            byte_field(KEY_OPERATION_KIND, 2), text_field(KEY_HOME, home@), text_field(KEY_ROOM_FILTER, room_filter@),
            text_field(KEY_NAME, name_filter@)],
        Request::EnumerateAccessories { home, zone_filter, room_filter, name_filter } => seq![
            byte_field(KEY_OPERATION_KIND, 3), text_field(KEY_HOME, home@), text_field(KEY_ZONE_FILTER, zone_filter@),
            text_field(KEY_ROOM_FILTER, room_filter@), text_field(KEY_NAME, name_filter@)],
        Request::EnumerateServices { home, types, name_filter } => seq![
            byte_field(KEY_OPERATION_KIND, 4), text_field(KEY_HOME, home@)]
            + types@.map_values(|t: ServiceType| byte_field(KEY_SERVICE_TYPE, service_type_code(t)))
            + seq![text_field(KEY_NAME, name_filter@)],
        Request::EnumerateServiceGroups { home, name_filter } => seq![
            byte_field(KEY_OPERATION_KIND, 5), text_field(KEY_HOME, home@), text_field(KEY_NAME, name_filter@)],
        Request::EnumerateActionSets { home, name_filter } => seq![
            byte_field(KEY_OPERATION_KIND, 6), text_field(KEY_HOME, home@), text_field(KEY_NAME, name_filter@)],
        Request::EnumerateTriggers { home, name_filter, enabled_filter, before, after } => seq![
            byte_field(KEY_OPERATION_KIND, 7), text_field(KEY_HOME, home@), text_field(KEY_NAME, name_filter@),
            byte_field(KEY_ENABLED, enabled_code(enabled_filter)), (KEY_BEFORE, le_bytes_u64(before)),
            (KEY_AFTER, le_bytes_u64(after))],
        Request::AddRemoveRoom { home, name, accessories, operation } => seq![
            byte_field(KEY_OPERATION_KIND, 8), text_field(KEY_HOME, home@), text_field(KEY_NAME, name@),
            byte_field(KEY_ROOM_OPERATION, operation_code(operation))]
            + text_views(accessories@).map_values(|s: Seq<char>| text_field(KEY_ACCESSORY, s)),
    }
}

pub fn push_text(fs: &mut Vec<(u8, Vec<u8>)>, key: u8, s: &String)
    ensures
        field_views(final(fs)@) == field_views(old(fs)@).push(text_field(key, s@)),
{
    let b = s.as_str().as_bytes_vec();
    fs.push((key, b));
    assert(field_views(final(fs)@) =~= field_views(old(fs)@).push(text_field(key, s@)));
}

pub fn push_byte(fs: &mut Vec<(u8, Vec<u8>)>, key: u8, v: u8)
    ensures
        field_views(final(fs)@) == field_views(old(fs)@).push(byte_field(key, v)),
{
    let mut b: Vec<u8> = Vec::new();
    b.push(v);
    fs.push((key, b));
    assert(field_views(final(fs)@) =~= field_views(old(fs)@).push(byte_field(key, v)));
}

fn push_u64_field(fs: &mut Vec<(u8, Vec<u8>)>, key: u8, v: u64)
    ensures
        field_views(final(fs)@) == field_views(old(fs)@).push((key, le_bytes_u64(v))),
{
    let mut b: Vec<u8> = Vec::new();
    b.push(v as u8);
    b.push((v >> 8) as u8);
    b.push((v >> 16) as u8);
    b.push((v >> 24) as u8);
    b.push((v >> 32) as u8);
    b.push((v >> 40) as u8);
    b.push((v >> 48) as u8);
    b.push((v >> 56) as u8);
    assert(b@ =~= le_bytes_u64(v));
    fs.push((key, b));
    assert(field_views(final(fs)@) =~= field_views(old(fs)@).push((key, le_bytes_u64(v))));
}

/// The fields of a request.
pub fn request_field_list(req: &Request) -> (r: Vec<(u8, Vec<u8>)>)
    ensures
        field_views(r@) == request_fields(*req),
{
    let mut fs: Vec<(u8, Vec<u8>)> = Vec::new();
    match req {
        Request::EnumerateHomes { name_filter } => {
            push_byte(&mut fs, KEY_OPERATION_KIND, 0);
            push_text(&mut fs, KEY_NAME, name_filter);
        },
        Request::EnumerateRooms { home, name_filter } => {
            push_byte(&mut fs, KEY_OPERATION_KIND, 1);
            push_text(&mut fs, KEY_HOME, home);
            push_text(&mut fs, KEY_NAME, name_filter);
        },
        Request::EnumerateZones { home, room_filter, name_filter } => {
            push_byte(&mut fs, KEY_OPERATION_KIND, 2);
            push_text(&mut fs, KEY_HOME, home);
            push_text(&mut fs, KEY_ROOM_FILTER, room_filter);
            push_text(&mut fs, KEY_NAME, name_filter);
        },
        Request::EnumerateAccessories { home, zone_filter, room_filter, name_filter } => {
            push_byte(&mut fs, KEY_OPERATION_KIND, 3);
            push_text(&mut fs, KEY_HOME, home);
            push_text(&mut fs, KEY_ZONE_FILTER, zone_filter);
            push_text(&mut fs, KEY_ROOM_FILTER, room_filter);
            push_text(&mut fs, KEY_NAME, name_filter);
        },
        Request::EnumerateServices { home, types, name_filter } => {
            push_byte(&mut fs, KEY_OPERATION_KIND, 4);
            push_text(&mut fs, KEY_HOME, home);
            let ghost head = field_views(fs@);
            let mut i: usize = 0;
            while i < types.len()
                invariant
                    i <= types@.len(),
                    field_views(fs@) == head + types@.subrange(0, i as int).map_values(
                        |t: ServiceType| byte_field(KEY_SERVICE_TYPE, service_type_code(t))),
                decreases types@.len() - i,
            {
                push_byte(&mut fs, KEY_SERVICE_TYPE, type_code(types[i]));
                i = i + 1;
                assert(field_views(fs@) =~= head + types@.subrange(0, i as int).map_values(
                    |t: ServiceType| byte_field(KEY_SERVICE_TYPE, service_type_code(t))));
            }
            assert(types@.subrange(0, i as int) =~= types@);
            push_text(&mut fs, KEY_NAME, name_filter);
        },
        Request::EnumerateServiceGroups { home, name_filter } => {
            push_byte(&mut fs, KEY_OPERATION_KIND, 5);
            push_text(&mut fs, KEY_HOME, home);
            push_text(&mut fs, KEY_NAME, name_filter);
        },
        Request::EnumerateActionSets { home, name_filter } => {
            push_byte(&mut fs, KEY_OPERATION_KIND, 6);
            push_text(&mut fs, KEY_HOME, home);
            push_text(&mut fs, KEY_NAME, name_filter);
        },
        Request::EnumerateTriggers { home, name_filter, enabled_filter, before, after } => {
            push_byte(&mut fs, KEY_OPERATION_KIND, 7);
            push_text(&mut fs, KEY_HOME, home);
            push_text(&mut fs, KEY_NAME, name_filter);
            let e: u8 = match enabled_filter {
                EnabledFilter::NoFilter => 0,
                EnabledFilter::EnabledOnly => 1,
                EnabledFilter::DisabledOnly => 2,
            };
            push_byte(&mut fs, KEY_ENABLED, e);
            push_u64_field(&mut fs, KEY_BEFORE, *before);
            push_u64_field(&mut fs, KEY_AFTER, *after);
        },
        Request::AddRemoveRoom { home, name, accessories, operation } => {
            push_byte(&mut fs, KEY_OPERATION_KIND, 8);
            push_text(&mut fs, KEY_HOME, home);
            push_text(&mut fs, KEY_NAME, name);
            let o: u8 = match operation {
                Operation::Add => 0,
                Operation::Remove => 1,
            };
            push_byte(&mut fs, KEY_ROOM_OPERATION, o);
            let ghost head = field_views(fs@);
            let mut i: usize = 0;
            while i < accessories.len()
                invariant
                    i <= accessories@.len(),
                    field_views(fs@) == head + text_views(accessories@.subrange(0, i as int)).map_values(
                        |s: Seq<char>| text_field(KEY_ACCESSORY, s)),
                decreases accessories@.len() - i,
            {
                push_text(&mut fs, KEY_ACCESSORY, &accessories[i]);
                i = i + 1;
                assert(field_views(fs@) =~= head + text_views(accessories@.subrange(0, i as int)).map_values(
                    |s: Seq<char>| text_field(KEY_ACCESSORY, s)));
            }
            assert(accessories@.subrange(0, i as int) =~= accessories@);
        },
    }
    assert(field_views(fs@) =~= request_fields(*req));
    fs
}

/// Encodes a request as its fields, one after the other; `None` when a
/// text is too long for its length prefix.
pub fn encode_request(req: &Request) -> (r: Option<Vec<u8>>)
    ensures
        match r {
            Some(v) => fields_fit(request_fields(*req)) && v@ == fields_encoding(request_fields(*req)),
            None => !fields_fit(request_fields(*req)),
        },
{
    encode_fields(&request_field_list(req))
}

/// What a reply says: the lines of a successful call, or the failure the
/// service reported.
pub enum Reply {
    Lines(Vec<String>),
    Failure { code: Code, message: String },
}

pub enum ReplyView {
    Lines(Seq<Seq<char>>),
    Failure(Code, Seq<char>),
}

impl View for Reply {
    type V = ReplyView;

    open spec fn view(&self) -> ReplyView {
        match self {
            Reply::Lines(ls) => ReplyView::Lines(text_views(ls@)),
            Reply::Failure { code, message } => ReplyView::Failure(*code, message@),
        }
    }
}

/// The error kind of a non-zero status.
pub open spec fn status_code(s: u8) -> Option<Code> {
    if s == 1 { Some(Code::InvalidArgument) }
    else if s == 2 { Some(Code::NotFound) }
    else if s == 3 { Some(Code::AlreadyExists) }
    else if s == 4 { Some(Code::FailedPrecondition) }
    else if s == 5 { Some(Code::Unavailable) }
    else if s == 6 { Some(Code::DeadlineExceeded) }
    else if s == 7 { Some(Code::Internal) }
    else if s == 8 { Some(Code::Transport) }
    else { None }
}

fn code_of_status(s: u8) -> (r: Option<Code>)
    ensures
        r == status_code(s),
{
    if s == 1 { Some(Code::InvalidArgument) }
    else if s == 2 { Some(Code::NotFound) }
    else if s == 3 { Some(Code::AlreadyExists) }
    else if s == 4 { Some(Code::FailedPrecondition) }
    else if s == 5 { Some(Code::Unavailable) }
    else if s == 6 { Some(Code::DeadlineExceeded) }
    else if s == 7 { Some(Code::Internal) }
    else if s == 8 { Some(Code::Transport) }
    else { None }
}

/// The texts of line fields `fs[from..]`, if every one of them is a line
/// field holding well-formed UTF-8.
pub open spec fn lines_from(fs: Seq<(u8, Seq<u8>)>, from: int) -> Option<Seq<Seq<char>>>
    decreases fs.len() - from,
{
    if from >= fs.len() {
        Some(Seq::empty())
    } else {
        let f = fs[from];
        if f.0 == KEY_LINE && valid_utf8(f.1) {
            match lines_from(fs, from + 1) {
                Some(rest) => Some(seq![decode_utf8(f.1)] + rest),
                None => None,
            }
        } else {
            None
        }
    }
}

/// What a reply's bytes say: a status field first; status zero is followed
/// by line fields, a known error status by exactly one message field.
pub open spec fn reply_decoding(b: Seq<u8>) -> Option<ReplyView> {
    match fields_of(b) {
        Some(fs) => if fs.len() >= 1 && fs[0].0 == KEY_STATUS && fs[0].1.len() == 1 {
            if fs[0].1[0] == 0 {
                match lines_from(fs, 1) {
                    Some(ls) => Some(ReplyView::Lines(ls)),
                    None => None,
                }
            } else if status_code(fs[0].1[0]) is Some && fs.len() == 2 && fs[1].0 == KEY_MESSAGE && valid_utf8(fs[1].1) {
                Some(ReplyView::Failure(status_code(fs[0].1[0])->Some_0, decode_utf8(fs[1].1)))
            } else {
                None
            }
        } else {
            None
        },
        None => None,
    }
}

/// Decodes a reply; a malformed one is an `InvalidArgument`.
pub fn decode_reply(b: &Vec<u8>) -> (r: Result<Reply, Code>)
    ensures
        match r {
            Ok(rep) => reply_decoding(b@) == Some(rep@),
            Err(c) => c == Code::InvalidArgument && reply_decoding(b@) is None,
        },
{
    let fs = match parse_fields(b) {
        Some(fs) => fs,
        None => return Err(Code::InvalidArgument),
    };
    let ghost fv = field_views(fs@);
    if fs.len() < 1 || fs[0].0 != KEY_STATUS || fs[0].1.len() != 1 {
        return Err(Code::InvalidArgument);
    }
    let status = fs[0].1[0];
    assert(fv[0] == (fs@[0].0, fs@[0].1@));
    if status == 0 {
        let n = fs.len();
        let mut lines: Vec<String> = Vec::new();
        let mut i: usize = 1;
        while i < n
            invariant
                n == fs@.len(),
                fv == field_views(fs@),
                fields_of(b@) == Some(fv),
                fv[0].0 == KEY_STATUS && fv[0].1.len() == 1 && fv[0].1[0] == 0,
                1 <= i <= n,
                lines_from(fv, 1) == match lines_from(fv, i as int) {
                    Some(rest) => Some(text_views(lines@) + rest),
                    None => None::<Seq<Seq<char>>>,
                },
            decreases n - i,
        {
            assert(fv[i as int] == (fs@[i as int].0, fs@[i as int].1@));
            if fs[i].0 != KEY_LINE {
                assert(lines_from(fv, i as int) is None);
                return Err(Code::InvalidArgument);
            }
            let s = match utf8_string(&fs[i].1) {
                Some(s) => s,
                None => {
                    assert(lines_from(fv, i as int) is None);
                    return Err(Code::InvalidArgument);
                },
            };
            let ghost before = text_views(lines@);
            proof {
                if let Some(rest) = lines_from(fv, i + 1) {
                    assert(before + (seq![s@] + rest) =~= before.push(s@) + rest);
                }
            }
            lines.push(s);
            assert(text_views(lines@) =~= before.push(s@));
            i = i + 1;
        }
        assert(text_views(lines@) + Seq::<Seq<char>>::empty() =~= text_views(lines@));
        Ok(Reply::Lines(lines))
    } else {
        let code = match code_of_status(status) {
            Some(c) => c,
            None => return Err(Code::InvalidArgument),
        };
        if fs.len() == 2 {
            assert(fv[1] == (fs@[1].0, fs@[1].1@));
        }
        if fs.len() != 2 || fs[1].0 != KEY_MESSAGE {
            return Err(Code::InvalidArgument);
        }
        match utf8_string(&fs[1].1) {
            Some(m) => Ok(Reply::Failure { code: code, message: m }),
            None => Err(Code::InvalidArgument),
        }
    }
}

/// The status byte of an error kind.
pub open spec fn status_byte(c: Code) -> u8 {
    match c {
        Code::InvalidArgument => 1,
        Code::NotFound => 2,
        Code::AlreadyExists => 3,
        Code::FailedPrecondition => 4,
        Code::Unavailable => 5,
        Code::DeadlineExceeded => 6,
        Code::Internal => 7,
        Code::Transport => 8,
    }
}

/// The fields that carry a reply.
pub open spec fn reply_fields(r: ReplyView) -> Seq<(u8, Seq<u8>)> {
    match r {
        ReplyView::Lines(ls) => seq![byte_field(KEY_STATUS, 0)] + ls.map_values(|l: Seq<char>| text_field(KEY_LINE, l)),
        ReplyView::Failure(c, m) => seq![byte_field(KEY_STATUS, status_byte(c)), text_field(KEY_MESSAGE, m)],
    }
}

/// Encodes a reply; `None` when a text is too long for its length prefix.
pub fn encode_reply(reply: &Reply) -> (r: Option<Vec<u8>>)
    ensures
        match r {
            Some(v) => fields_fit(reply_fields(reply@)) && v@ == fields_encoding(reply_fields(reply@)),
            None => !fields_fit(reply_fields(reply@)),
        },
{
    let mut fs: Vec<(u8, Vec<u8>)> = Vec::new();
    match reply {
        Reply::Lines(ls) => {
            push_byte(&mut fs, KEY_STATUS, 0);
            let ghost head = field_views(fs@);
            let mut i: usize = 0;
            while i < ls.len()
                invariant
                    i <= ls@.len(),
                    field_views(fs@) == head + text_views(ls@.subrange(0, i as int)).map_values(|l: Seq<char>| text_field(KEY_LINE, l)),
                decreases ls@.len() - i,
            {
                push_text(&mut fs, KEY_LINE, &ls[i]);
                i = i + 1;
                assert(field_views(fs@) =~= head + text_views(ls@.subrange(0, i as int)).map_values(|l: Seq<char>| text_field(KEY_LINE, l)));
            }
            assert(ls@.subrange(0, i as int) =~= ls@);
        },
        Reply::Failure { code, message } => {
            let b: u8 = match code {
                Code::InvalidArgument => 1,
                Code::NotFound => 2,
                Code::AlreadyExists => 3,
                Code::FailedPrecondition => 4,
                Code::Unavailable => 5,
                Code::DeadlineExceeded => 6,
                Code::Internal => 7,
                Code::Transport => 8,
            };
            push_byte(&mut fs, KEY_STATUS, b);
            push_text(&mut fs, KEY_MESSAGE, message);
        },
    }
    assert(field_views(fs@) =~= reply_fields(reply@));
    encode_fields(&fs)
}

proof fn lemma_lines_round_trip(fs: Seq<(u8, Seq<u8>)>, ls: Seq<Seq<char>>, from: int)
    requires
        0 <= from <= fs.len(),
        fs.len() - from == ls.len(),
        forall|k: int| 0 <= k < ls.len() ==> #[trigger] fs[from + k] == text_field(KEY_LINE, ls[k]),
    ensures
        lines_from(fs, from) == Some(ls),
    decreases fs.len() - from,
{
    broadcast use encode_utf8_valid_utf8, encode_utf8_decode_utf8;

    if from < fs.len() {
        assert(fs[from + 0] == text_field(KEY_LINE, ls[0]));
        let tail = ls.drop_first();
        assert forall|k: int| 0 <= k < tail.len() implies #[trigger] fs[from + 1 + k] == text_field(KEY_LINE, tail[k]) by {
            assert(fs[from + (k + 1)] == text_field(KEY_LINE, ls[k + 1]));
            assert(from + 1 + k == from + (k + 1));
        }
        lemma_lines_round_trip(fs, tail, from + 1);
        assert(seq![ls[0]] + tail =~= ls);
    } else {
        assert(ls =~= Seq::<Seq<char>>::empty());
    }
}

/// Decoding the encoding of any reply gives it back: the same lines in
/// order, or the same error kind and message.
pub proof fn lemma_reply_round_trip(r: ReplyView)
    requires
        fields_fit(reply_fields(r)),
    ensures
        reply_decoding(fields_encoding(reply_fields(r))) == Some(r),
{
    broadcast use encode_utf8_valid_utf8, encode_utf8_decode_utf8;

    let fs = reply_fields(r);
    lemma_fields_round_trip(fs);
    match r {
        ReplyView::Lines(ls) => {
            assert forall|k: int| 0 <= k < ls.len() implies #[trigger] fs[1 + k] == text_field(KEY_LINE, ls[k]) by {}
            lemma_lines_round_trip(fs, ls, 1);
        },
        ReplyView::Failure(c, m) => {},
    }
}

/// The service type of a wire value; an unknown value is
/// `InvalidServiceType`.
pub open spec fn service_type_of_code(c: u8) -> ServiceType {
    if c == 1 { ServiceType::LightBulb } else
    if c == 2 { ServiceType::LightSensor } else
    if c == 3 { ServiceType::Switch } else
    if c == 4 { ServiceType::Battery } else
    if c == 5 { ServiceType::Outlet } else
    if c == 6 { ServiceType::StatefulProgrammableSwitch } else
    if c == 7 { ServiceType::StatelessProgrammableSwitch } else
    if c == 8 { ServiceType::AirPurifier } else
    if c == 9 { ServiceType::AirQualitySensor } else
    if c == 10 { ServiceType::CarbonDioxideSensor } else
    if c == 11 { ServiceType::CarbonMonoxideSensor } else
    if c == 12 { ServiceType::SmokeSensor } else
    if c == 13 { ServiceType::HeaterCooler } else
    if c == 14 { ServiceType::TemperatureSensor } else
    if c == 15 { ServiceType::Thermostat } else
    if c == 16 { ServiceType::Fan } else
    if c == 17 { ServiceType::FilterMaintenance } else
    if c == 18 { ServiceType::HumidifierDehumidifier } else
    if c == 19 { ServiceType::HumiditySensor } else
    if c == 20 { ServiceType::VentilationFan } else
    if c == 21 { ServiceType::Window } else
    if c == 22 { ServiceType::WindowCovering } else
    if c == 23 { ServiceType::Slats } else
    if c == 24 { ServiceType::Faucet } else
    if c == 25 { ServiceType::Valve } else
    if c == 26 { ServiceType::IrrigationSystem } else
    if c == 27 { ServiceType::LeakSensor } else
    if c == 28 { ServiceType::Door } else
    if c == 29 { ServiceType::Doorbell } else
    if c == 30 { ServiceType::GarageDoorOpener } else
    if c == 31 { ServiceType::LockManagement } else
    if c == 32 { ServiceType::LockMechanism } else
    if c == 33 { ServiceType::MotionSensor } else
    if c == 34 { ServiceType::OccupancySensor } else
    if c == 35 { ServiceType::SecuritySystem } else
    if c == 36 { ServiceType::ContactSensor } else
    if c == 37 { ServiceType::CameraControl } else
    if c == 38 { ServiceType::CameraRtpStreamManagement } else
    if c == 39 { ServiceType::Microphone } else
    if c == 40 { ServiceType::Speaker } else
    if c == 41 { ServiceType::Label } else
    if c == 42 { ServiceType::AccessoryInformation } else { ServiceType::InvalidServiceType }
}

fn type_of_code(c: u8) -> (r: ServiceType)
    ensures
        r == service_type_of_code(c),
{
    if c == 1 { ServiceType::LightBulb } else
    if c == 2 { ServiceType::LightSensor } else
    if c == 3 { ServiceType::Switch } else
    if c == 4 { ServiceType::Battery } else
    if c == 5 { ServiceType::Outlet } else
    if c == 6 { ServiceType::StatefulProgrammableSwitch } else
    if c == 7 { ServiceType::StatelessProgrammableSwitch } else
    if c == 8 { ServiceType::AirPurifier } else
    if c == 9 { ServiceType::AirQualitySensor } else
    if c == 10 { ServiceType::CarbonDioxideSensor } else
    if c == 11 { ServiceType::CarbonMonoxideSensor } else
    if c == 12 { ServiceType::SmokeSensor } else
    if c == 13 { ServiceType::HeaterCooler } else
    if c == 14 { ServiceType::TemperatureSensor } else
    if c == 15 { ServiceType::Thermostat } else
    if c == 16 { ServiceType::Fan } else
    if c == 17 { ServiceType::FilterMaintenance } else
    if c == 18 { ServiceType::HumidifierDehumidifier } else
    if c == 19 { ServiceType::HumiditySensor } else
    if c == 20 { ServiceType::VentilationFan } else
    if c == 21 { ServiceType::Window } else
    if c == 22 { ServiceType::WindowCovering } else
    if c == 23 { ServiceType::Slats } else
    if c == 24 { ServiceType::Faucet } else
    if c == 25 { ServiceType::Valve } else
    if c == 26 { ServiceType::IrrigationSystem } else
    if c == 27 { ServiceType::LeakSensor } else
    if c == 28 { ServiceType::Door } else
    if c == 29 { ServiceType::Doorbell } else
    if c == 30 { ServiceType::GarageDoorOpener } else
    if c == 31 { ServiceType::LockManagement } else
    if c == 32 { ServiceType::LockMechanism } else
    if c == 33 { ServiceType::MotionSensor } else
    if c == 34 { ServiceType::OccupancySensor } else
    if c == 35 { ServiceType::SecuritySystem } else
    if c == 36 { ServiceType::ContactSensor } else
    if c == 37 { ServiceType::CameraControl } else
    if c == 38 { ServiceType::CameraRtpStreamManagement } else
    if c == 39 { ServiceType::Microphone } else
    if c == 40 { ServiceType::Speaker } else
    if c == 41 { ServiceType::Label } else
    if c == 42 { ServiceType::AccessoryInformation } else { ServiceType::InvalidServiceType }
}

/// The value of a request.
pub enum RequestView {
    Homes(Seq<char>),
    Rooms(Seq<char>, Seq<char>),
    Zones(Seq<char>, Seq<char>, Seq<char>),
    Accessories(Seq<char>, Seq<char>, Seq<char>, Seq<char>),
    Services(Seq<char>, Seq<ServiceType>, Seq<char>),
    ServiceGroups(Seq<char>, Seq<char>),
    ActionSets(Seq<char>, Seq<char>),
    Triggers(Seq<char>, Seq<char>, EnabledFilter, u64, u64),
    RoomChange(Seq<char>, Seq<char>, Seq<Seq<char>>, Operation),
}

impl View for Request {
    type V = RequestView;

    open spec fn view(&self) -> RequestView {
        match self {
            Request::EnumerateHomes { name_filter } => RequestView::Homes(name_filter@),
            Request::EnumerateRooms { home, name_filter } => RequestView::Rooms(home@, name_filter@),
            Request::EnumerateZones { home, room_filter, name_filter } => RequestView::Zones(home@, room_filter@, name_filter@),
            Request::EnumerateAccessories { home, zone_filter, room_filter, name_filter } =>
                RequestView::Accessories(home@, zone_filter@, room_filter@, name_filter@),
            Request::EnumerateServices { home, types, name_filter } => RequestView::Services(home@, types@, name_filter@),
            Request::EnumerateServiceGroups { home, name_filter } => RequestView::ServiceGroups(home@, name_filter@),
            Request::EnumerateActionSets { home, name_filter } => RequestView::ActionSets(home@, name_filter@),
            Request::EnumerateTriggers { home, name_filter, enabled_filter, before, after } =>
                RequestView::Triggers(home@, name_filter@, *enabled_filter, *before, *after),
            Request::AddRemoveRoom { home, name, accessories, operation } =>
                RequestView::RoomChange(home@, name@, text_views(accessories@), *operation),
        }
    }
}

/// Field `f` is a text field under `key`.
pub open spec fn is_text(f: (u8, Seq<u8>), key: u8) -> bool {
    f.0 == key && valid_utf8(f.1)
}

/// The text of a text field.
pub open spec fn text_of(f: (u8, Seq<u8>)) -> Seq<char> {
    decode_utf8(f.1)
}

/// Field `f` is a one-byte field under `key` whose value is at most `max`.
pub open spec fn is_byte(f: (u8, Seq<u8>), key: u8, max: u8) -> bool {
    f.0 == key && f.1.len() == 1 && f.1[0] <= max
}

/// The enabled filter of a wire value.
pub open spec fn enabled_of_code(c: u8) -> EnabledFilter {
    if c == 1 { EnabledFilter::EnabledOnly } else if c == 2 { EnabledFilter::DisabledOnly } else { EnabledFilter::NoFilter }
}

/// The request that a list of fields carries, if it is well formed.
pub open spec fn request_of_fields(fs: Seq<(u8, Seq<u8>)>) -> Option<RequestView> {
    let n = fs.len();
    if n >= 1 && is_byte(fs[0], KEY_OPERATION_KIND, 8) {
        let k = fs[0].1[0];
        if k == 0 && n == 2 && is_text(fs[1], KEY_NAME) {
            Some(RequestView::Homes(text_of(fs[1])))
        } else if (k == 1 || k == 5 || k == 6) && n == 3 && is_text(fs[1], KEY_HOME) && is_text(fs[2], KEY_NAME) {
            Some(if k == 1 {
                RequestView::Rooms(text_of(fs[1]), text_of(fs[2]))
            } else if k == 5 {
                RequestView::ServiceGroups(text_of(fs[1]), text_of(fs[2]))
            } else {
                RequestView::ActionSets(text_of(fs[1]), text_of(fs[2]))
            })
        } else if k == 2 && n == 4 && is_text(fs[1], KEY_HOME) && is_text(fs[2], KEY_ROOM_FILTER) && is_text(fs[3], KEY_NAME) {
            Some(RequestView::Zones(text_of(fs[1]), text_of(fs[2]), text_of(fs[3])))
        } else if k == 3 && n == 5 && is_text(fs[1], KEY_HOME) && is_text(fs[2], KEY_ZONE_FILTER)
            && is_text(fs[3], KEY_ROOM_FILTER) && is_text(fs[4], KEY_NAME) {
            Some(RequestView::Accessories(text_of(fs[1]), text_of(fs[2]), text_of(fs[3]), text_of(fs[4])))
        } else if k == 4 && n >= 3 && is_text(fs[1], KEY_HOME) && is_text(fs[n - 1], KEY_NAME)
            && forall|j: int| 2 <= j < n - 1 ==> #[trigger] is_byte(fs[j], KEY_SERVICE_TYPE, 255) {
            Some(RequestView::Services(
                text_of(fs[1]),
                fs.subrange(2, n - 1).map_values(|f: (u8, Seq<u8>)| service_type_of_code(f.1[0])),
                text_of(fs[n - 1]),
            ))
        } else if k == 7 && n == 6 && is_text(fs[1], KEY_HOME) && is_text(fs[2], KEY_NAME) && is_byte(fs[3], KEY_ENABLED, 2)
            && fs[4].0 == KEY_BEFORE && fs[4].1.len() == 8 && fs[5].0 == KEY_AFTER && fs[5].1.len() == 8 {
            Some(RequestView::Triggers(text_of(fs[1]), text_of(fs[2]), enabled_of_code(fs[3].1[0]),
                le_u64_at(fs[4].1, 0), le_u64_at(fs[5].1, 0)))
        } else if k == 8 && n >= 4 && is_text(fs[1], KEY_HOME) && is_text(fs[2], KEY_NAME) && is_byte(fs[3], KEY_ROOM_OPERATION, 1)
            && forall|j: int| 4 <= j < n ==> #[trigger] is_text(fs[j], KEY_ACCESSORY) {
            Some(RequestView::RoomChange(
                text_of(fs[1]),
                text_of(fs[2]),
                fs.subrange(4, n as int).map_values(|f: (u8, Seq<u8>)| text_of(f)),
                if fs[3].1[0] == 0 { Operation::Add } else { Operation::Remove },
            ))
        } else {
            None
        }
    } else {
        None
    }
}

/// What decoding `b` as a request gives, if it is well formed.
pub open spec fn request_decoding(b: Seq<u8>) -> Option<RequestView> {
    match fields_of(b) {
        Some(fs) => request_of_fields(fs),
        None => None,
    }
}

proof fn lemma_service_type_code(t: ServiceType)
    ensures
        service_type_of_code(service_type_code(t)) == t,
{
}

proof fn lemma_services_fields(types: Seq<ServiceType>, fs: Seq<(u8, Seq<u8>)>)
    requires
        fs.len() == types.len() + 3,
        forall|j: int| 0 <= j < types.len() ==> #[trigger] fs[j + 2] == byte_field(KEY_SERVICE_TYPE, service_type_code(types[j])),
    ensures
        forall|j: int| 2 <= j < fs.len() - 1 ==> #[trigger] is_byte(fs[j], KEY_SERVICE_TYPE, 255),
        fs.subrange(2, fs.len() - 1).map_values(|f: (u8, Seq<u8>)| service_type_of_code(f.1[0])) == types,
{
    assert forall|j: int| 2 <= j < fs.len() - 1 implies #[trigger] is_byte(fs[j], KEY_SERVICE_TYPE, 255) by {
        assert(fs[(j - 2) + 2] == byte_field(KEY_SERVICE_TYPE, service_type_code(types[j - 2])));
    }
    assert forall|j: int| 0 <= j < types.len() implies
        fs.subrange(2, fs.len() - 1).map_values(|f: (u8, Seq<u8>)| service_type_of_code(f.1[0]))[j] == types[j] by {
        assert(fs[j + 2] == byte_field(KEY_SERVICE_TYPE, service_type_code(types[j])));
        lemma_service_type_code(types[j]);
    }
    assert(fs.subrange(2, fs.len() - 1).map_values(|f: (u8, Seq<u8>)| service_type_of_code(f.1[0])) =~= types);
}

proof fn lemma_accessory_fields(accs: Seq<Seq<char>>, fs: Seq<(u8, Seq<u8>)>)
    requires
        fs.len() == accs.len() + 4,
        forall|j: int| 0 <= j < accs.len() ==> #[trigger] fs[j + 4] == text_field(KEY_ACCESSORY, accs[j]),
    ensures
        forall|j: int| 4 <= j < fs.len() ==> #[trigger] is_text(fs[j], KEY_ACCESSORY),
        fs.subrange(4, fs.len() as int).map_values(|f: (u8, Seq<u8>)| text_of(f)) == accs,
{
    broadcast use encode_utf8_valid_utf8, encode_utf8_decode_utf8;

    assert forall|j: int| 4 <= j < fs.len() implies #[trigger] is_text(fs[j], KEY_ACCESSORY) by {
        assert(fs[(j - 4) + 4] == text_field(KEY_ACCESSORY, accs[j - 4]));
    }
    assert forall|j: int| 0 <= j < accs.len() implies
        fs.subrange(4, fs.len() as int).map_values(|f: (u8, Seq<u8>)| text_of(f))[j] == accs[j] by {
        assert(fs[j + 4] == text_field(KEY_ACCESSORY, accs[j]));
    }
    assert(fs.subrange(4, fs.len() as int).map_values(|f: (u8, Seq<u8>)| text_of(f)) =~= accs);
}

/// Decoding the encoding of any request gives it back: the server sees
/// every field of a request as the client built it, the empty filters
/// included.
#[verifier::rlimit(60)]
pub proof fn lemma_request_round_trip(r: Request)
    requires
        fields_fit(request_fields(r)),
    ensures
        request_decoding(fields_encoding(request_fields(r))) == Some(r@),
{
    broadcast use encode_utf8_valid_utf8, encode_utf8_decode_utf8;

    let fs = request_fields(r);
    lemma_fields_round_trip(fs);
    match r {
        Request::EnumerateServices { home, types, name_filter } => {
            assert forall|j: int| 0 <= j < types@.len() implies #[trigger] fs[j + 2] == byte_field(KEY_SERVICE_TYPE, service_type_code(types@[j])) by {}
            lemma_services_fields(types@, fs);
        },
        Request::EnumerateTriggers { home, name_filter, enabled_filter, before, after } => {
            lemma_le_u64(before);
            lemma_le_u64(after);
        },
        Request::AddRemoveRoom { home, name, accessories, operation } => {
            let accs = text_views(accessories@);
            assert forall|j: int| 0 <= j < accs.len() implies #[trigger] fs[j + 4] == text_field(KEY_ACCESSORY, accs[j]) by {}
            lemma_accessory_fields(accs, fs);
        },
        _ => {},
    }
}

fn text_at(fs: &Vec<(u8, Vec<u8>)>, j: usize, key: u8) -> (r: Option<String>)
    requires
        j < fs@.len(),
    ensures
        match r {
            Some(t) => is_text(field_views(fs@)[j as int], key) && t@ == text_of(field_views(fs@)[j as int]),
            None => !is_text(field_views(fs@)[j as int], key),
        },
{
    assert(field_views(fs@)[j as int] == (fs@[j as int].0, fs@[j as int].1@));
    if fs[j].0 != key {
        return None;
    }
    utf8_string(&fs[j].1)
}

fn byte_at(fs: &Vec<(u8, Vec<u8>)>, j: usize, key: u8, max: u8) -> (r: Option<u8>)
    requires
        j < fs@.len(),
    ensures
        match r {
            Some(v) => is_byte(field_views(fs@)[j as int], key, max) && v == field_views(fs@)[j as int].1[0],
            None => !is_byte(field_views(fs@)[j as int], key, max),
        },
{
    assert(field_views(fs@)[j as int] == (fs@[j as int].0, fs@[j as int].1@));
    if fs[j].0 == key && fs[j].1.len() == 1 && fs[j].1[0] <= max {
        Some(fs[j].1[0])
    } else {
        None
    }
}

fn u64_at(fs: &Vec<(u8, Vec<u8>)>, j: usize, key: u8) -> (r: Option<u64>)
    requires
        j < fs@.len(),
    ensures
        match r {
            Some(v) => field_views(fs@)[j as int].0 == key && field_views(fs@)[j as int].1.len() == 8
                && v == le_u64_at(field_views(fs@)[j as int].1, 0),
            None => !(field_views(fs@)[j as int].0 == key && field_views(fs@)[j as int].1.len() == 8),
        },
{
    assert(field_views(fs@)[j as int] == (fs@[j as int].0, fs@[j as int].1@));
    if fs[j].0 == key && fs[j].1.len() == 8 {
        let p = &fs[j].1;
        Some((p[0] as u64) | ((p[1] as u64) << 8) | ((p[2] as u64) << 16) | ((p[3] as u64) << 24)
            | ((p[4] as u64) << 32) | ((p[5] as u64) << 40) | ((p[6] as u64) << 48) | ((p[7] as u64) << 56))
    } else {
        None
    }
}

fn decode_fields(fs: &Vec<(u8, Vec<u8>)>) -> (r: Option<Request>)
    ensures
        match r {
            Some(req) => request_of_fields(field_views(fs@)) == Some(req@),
            None => request_of_fields(field_views(fs@)) is None,
        },
{
    let ghost fv = field_views(fs@);
    let n = fs.len();
    if n < 1 {
        return None;
    }
    let k = match byte_at(fs, 0, KEY_OPERATION_KIND, 8) {
        Some(k) => k,
        None => return None,
    };
    if k == 0 {
        if n != 2 {
            return None;
        }
        let name = text_at(fs, 1, KEY_NAME)?;
        Some(Request::EnumerateHomes { name_filter: name })
    } else if k == 1 || k == 5 || k == 6 {
        if n != 3 {
            return None;
        }
        let home = text_at(fs, 1, KEY_HOME)?;
        let name = text_at(fs, 2, KEY_NAME)?;
        Some(if k == 1 {
            Request::EnumerateRooms { home: home, name_filter: name }
        } else if k == 5 {
            Request::EnumerateServiceGroups { home: home, name_filter: name }
        } else {
            Request::EnumerateActionSets { home: home, name_filter: name }
        })
    } else if k == 2 {
        if n != 4 {
            return None;
        }
        let home = text_at(fs, 1, KEY_HOME)?;
        let room = text_at(fs, 2, KEY_ROOM_FILTER)?;
        let name = text_at(fs, 3, KEY_NAME)?;
        Some(Request::EnumerateZones { home: home, room_filter: room, name_filter: name })
    } else if k == 3 {
        if n != 5 {
            return None;
        }
        let home = text_at(fs, 1, KEY_HOME)?;
        let zone = text_at(fs, 2, KEY_ZONE_FILTER)?;
        let room = text_at(fs, 3, KEY_ROOM_FILTER)?;
        let name = text_at(fs, 4, KEY_NAME)?;
        Some(Request::EnumerateAccessories { home: home, zone_filter: zone, room_filter: room, name_filter: name })
    } else if k == 4 {
        if n < 3 {
            return None;
        }
        let home = text_at(fs, 1, KEY_HOME)?;
        let name = text_at(fs, n - 1, KEY_NAME)?;
        let mut types: Vec<ServiceType> = Vec::new();
        let mut j: usize = 2;
        while j < n - 1
            invariant
                n == fs@.len(),
                fv == field_views(fs@),
                is_byte(fv[0], KEY_OPERATION_KIND, 8) && fv[0].1[0] == 4,
                is_text(fv[1], KEY_HOME) && is_text(fv[n - 1], KEY_NAME),
                home@ == text_of(fv[1]) && name@ == text_of(fv[n - 1]),
                n >= 3,
                2 <= j <= n - 1,
                forall|m: int| 2 <= m < j ==> #[trigger] is_byte(fv[m], KEY_SERVICE_TYPE, 255),
                types@ == fv.subrange(2, j as int).map_values(|f: (u8, Seq<u8>)| service_type_of_code(f.1[0])),
            decreases n - 1 - j,
        {
            let c = match byte_at(fs, j, KEY_SERVICE_TYPE, 255) {
                Some(c) => c,
                None => {
                    assert(!is_byte(fv[j as int], KEY_SERVICE_TYPE, 255));
                    return None;
                },
            };
            types.push(type_of_code(c));
            j = j + 1;
            assert(types@ =~= fv.subrange(2, j as int).map_values(|f: (u8, Seq<u8>)| service_type_of_code(f.1[0])));
        }
        Some(Request::EnumerateServices { home: home, types: types, name_filter: name })
    } else if k == 7 {
        if n != 6 {
            return None;
        }
        let home = text_at(fs, 1, KEY_HOME)?;
        let name = text_at(fs, 2, KEY_NAME)?;
        let e = byte_at(fs, 3, KEY_ENABLED, 2)?;
        let before = u64_at(fs, 4, KEY_BEFORE)?;
        let after = u64_at(fs, 5, KEY_AFTER)?;
        let f = if e == 1 { EnabledFilter::EnabledOnly } else if e == 2 { EnabledFilter::DisabledOnly } else { EnabledFilter::NoFilter };
        Some(Request::EnumerateTriggers { home: home, name_filter: name, enabled_filter: f, before: before, after: after })
    } else {
        if n < 4 {
            return None;
        }
        let home = text_at(fs, 1, KEY_HOME)?;
        let name = text_at(fs, 2, KEY_NAME)?;
        let o = byte_at(fs, 3, KEY_ROOM_OPERATION, 1)?;
        let mut accessories: Vec<String> = Vec::new();
        let mut j: usize = 4;
        while j < n
            invariant
                n == fs@.len(),
                fv == field_views(fs@),
                is_byte(fv[0], KEY_OPERATION_KIND, 8) && fv[0].1[0] == 8,
                is_text(fv[1], KEY_HOME) && is_text(fv[2], KEY_NAME) && is_byte(fv[3], KEY_ROOM_OPERATION, 1),
                home@ == text_of(fv[1]) && name@ == text_of(fv[2]) && o == fv[3].1[0],
                4 <= j <= n,
                forall|m: int| 4 <= m < j ==> #[trigger] is_text(fv[m], KEY_ACCESSORY),
                text_views(accessories@) == fv.subrange(4, j as int).map_values(|f: (u8, Seq<u8>)| text_of(f)),
            decreases n - j,
        {
            let t = match text_at(fs, j, KEY_ACCESSORY) {
                Some(t) => t,
                None => {
                    assert(!is_text(fv[j as int], KEY_ACCESSORY));
                    return None;
                },
            };
            let ghost before = text_views(accessories@);
            accessories.push(t);
            assert(text_views(accessories@) =~= before.push(text_of(fv[j as int])));
            assert(fv.subrange(4, j + 1).map_values(|f: (u8, Seq<u8>)| text_of(f))
                =~= fv.subrange(4, j as int).map_values(|f: (u8, Seq<u8>)| text_of(f)).push(text_of(fv[j as int])));
            j = j + 1;
            assert(text_views(accessories@) =~= fv.subrange(4, j as int).map_values(|f: (u8, Seq<u8>)| text_of(f)));
        }
        let operation = if o == 0 { Operation::Add } else { Operation::Remove };
        Some(Request::AddRemoveRoom { home: home, name: name, accessories: accessories, operation: operation })
    }
}

/// Decodes a request; a malformed one is an `InvalidArgument`.
pub fn decode_request(b: &Vec<u8>) -> (r: Result<Request, Code>)
    ensures
        match r {
            Ok(req) => request_decoding(b@) == Some(req@),
            Err(c) => c == Code::InvalidArgument && request_decoding(b@) is None,
        },
{
    match parse_fields(b) {
        Some(fs) => match decode_fields(&fs) {
            Some(req) => Ok(req),
            None => Err(Code::InvalidArgument),
        },
        None => Err(Code::InvalidArgument),
    }
}

} // verus!
