use vstd::prelude::*;
use vstd::utf8::{decode_utf8, encode_utf8, valid_utf8, encode_utf8_valid_utf8, encode_utf8_decode_utf8};
use crate::schema::{Code, EntityRef, Home, HubState, Room};
use crate::service::ref_views;
use crate::transport::{byte_field, push_byte, push_text, text_field};
use crate::wire::{
    encode_fields, field_views, fields_encoding, fields_fit, fields_of, lemma_fields_round_trip, parse_fields,
    utf8_string,
};

verus! {

/// The wire value of a hub state.
pub open spec fn hub_code(s: HubState) -> u8 {
    match s {
        HubState::Invalid => 0,
        HubState::Connected => 1,
        HubState::Disconnected => 2,
        HubState::NotAvailable => 3,
    }
}

/// The hub state of a wire value; an unknown value is `Invalid`.
pub open spec fn hub_of(c: u8) -> HubState {
    if c == 1 {
        HubState::Connected
    } else if c == 2 {
        HubState::Disconnected
    } else if c == 3 {
        HubState::NotAvailable
    } else {
        HubState::Invalid
    }
}

/// The value of a home.
pub open spec fn home_view(h: Home) -> (Seq<char>, Seq<char>, bool, HubState) {
    (h.uuid@, h.name@, h.is_primary, h.hub_state)
}

/// The fields that carry a home.
pub open spec fn home_fields(h: Home) -> Seq<(u8, Seq<u8>)> {
    seq![
        text_field(1, h.uuid@),
        text_field(2, h.name@),
        byte_field(3, if h.is_primary { 1 } else { 0 }),
        byte_field(4, hub_code(h.hub_state)),
    ]
}

/// What decoding `b` as a home gives, if it is well formed.
pub open spec fn home_decoding(b: Seq<u8>) -> Option<(Seq<char>, Seq<char>, bool, HubState)> {
    match fields_of(b) {
        Some(fs) => if fs.len() == 4 && fs[0].0 == 1 && valid_utf8(fs[0].1) && fs[1].0 == 2 && valid_utf8(fs[1].1)
            && fs[2].0 == 3 && fs[2].1.len() == 1 && fs[2].1[0] <= 1 && fs[3].0 == 4 && fs[3].1.len() == 1 {
            Some((decode_utf8(fs[0].1), decode_utf8(fs[1].1), fs[2].1[0] == 1, hub_of(fs[3].1[0])))
        } else {
            None
        },
        None => None,
    }
}

/// Encodes a home; `None` when a text is too long for its length prefix.
pub fn encode_home(h: &Home) -> (r: Option<Vec<u8>>)
    ensures
        match r {
            Some(v) => fields_fit(home_fields(*h)) && v@ == fields_encoding(home_fields(*h)),
            None => !fields_fit(home_fields(*h)),
        },
{
    let mut fs: Vec<(u8, Vec<u8>)> = Vec::new();
    push_text(&mut fs, 1, &h.uuid);
    push_text(&mut fs, 2, &h.name);
    push_byte(&mut fs, 3, if h.is_primary { 1 } else { 0 });
    let c: u8 = match h.hub_state {
        HubState::Invalid => 0,
        HubState::Connected => 1,
        HubState::Disconnected => 2,
        HubState::NotAvailable => 3,
    };
    push_byte(&mut fs, 4, c);
    assert(field_views(fs@) =~= home_fields(*h));
    encode_fields(&fs)
}

/// Decodes a home; a malformed one is an `InvalidArgument`.
pub fn decode_home(b: &Vec<u8>) -> (r: Result<Home, Code>)
    ensures
        match r {
            Ok(h) => home_decoding(b@) == Some(home_view(h)),
            Err(c) => c == Code::InvalidArgument && home_decoding(b@) is None,
        },
{
    let fs = match parse_fields(b) {
        Some(fs) => fs,
        None => return Err(Code::InvalidArgument),
    };
    if fs.len() != 4 {
        return Err(Code::InvalidArgument);
    }
    let ghost fv = field_views(fs@);
    assert(fv[0] == (fs@[0].0, fs@[0].1@) && fv[1] == (fs@[1].0, fs@[1].1@));
    assert(fv[2] == (fs@[2].0, fs@[2].1@) && fv[3] == (fs@[3].0, fs@[3].1@));
    if fs[0].0 != 1 || fs[1].0 != 2 || fs[2].0 != 3 || fs[2].1.len() != 1 || fs[2].1[0] > 1 || fs[3].0 != 4
        || fs[3].1.len() != 1 {
        return Err(Code::InvalidArgument);
    }
    let uuid = match utf8_string(&fs[0].1) {
        Some(s) => s,
        None => return Err(Code::InvalidArgument),
    };
    let name = match utf8_string(&fs[1].1) {
        Some(s) => s,
        None => return Err(Code::InvalidArgument),
    };
    let c = fs[3].1[0];
    let hub_state = if c == 1 {
        HubState::Connected
    } else if c == 2 {
        HubState::Disconnected
    } else if c == 3 {
        HubState::NotAvailable
    } else {
        HubState::Invalid
    };
    Ok(Home { uuid: uuid, name: name, is_primary: fs[2].1[0] == 1, hub_state: hub_state })
}

/// Decoding the encoding of any home gives it back.
pub proof fn lemma_home_round_trip(h: Home)
    requires
        fields_fit(home_fields(h)),
    ensures
        home_decoding(fields_encoding(home_fields(h))) == Some(home_view(h)),
{
    broadcast use encode_utf8_valid_utf8, encode_utf8_decode_utf8;

    lemma_fields_round_trip(home_fields(h));
}

/// The fields that carry an entity reference.
pub open spec fn ref_fields(e: (Seq<char>, Seq<char>)) -> Seq<(u8, Seq<u8>)> {
    seq![text_field(1, e.0), text_field(2, e.1)]
}

/// The fields that carry a room: its uuid, its name, then one nested
/// reference message per accessory.
pub open spec fn room_fields(r: Room) -> Seq<(u8, Seq<u8>)> {
    seq![text_field(1, r.uuid@), text_field(2, r.name@)]
        + ref_views(r.accessories@).map_values(|e: (Seq<char>, Seq<char>)| (3u8, fields_encoding(ref_fields(e))))
}

/// The reference that a nested message carries, if it is well formed.
pub open spec fn ref_decoding(b: Seq<u8>) -> Option<(Seq<char>, Seq<char>)> {
    match fields_of(b) {
        Some(fs) => if fs.len() == 2 && fs[0].0 == 1 && valid_utf8(fs[0].1) && fs[1].0 == 2 && valid_utf8(fs[1].1) {
            Some((decode_utf8(fs[0].1), decode_utf8(fs[1].1)))
        } else {
            None
        },
        None => None,
    }
}

/// The references that fields `fs[from..]` carry, if each is a well-formed
/// accessory field.
pub open spec fn refs_from(fs: Seq<(u8, Seq<u8>)>, from: int) -> Option<Seq<(Seq<char>, Seq<char>)>>
    decreases fs.len() - from,
{
    if from >= fs.len() {
        Some(Seq::empty())
    } else if fs[from].0 == 3 && ref_decoding(fs[from].1) is Some {
        match refs_from(fs, from + 1) {
            Some(rest) => Some(seq![ref_decoding(fs[from].1)->Some_0] + rest),
            None => None,
        }
    } else {
        None
    }
}

/// The value of a room.
pub open spec fn room_view(r: Room) -> (Seq<char>, Seq<char>, Seq<(Seq<char>, Seq<char>)>) {
    (r.uuid@, r.name@, ref_views(r.accessories@))
}

/// What decoding `b` as a room gives, if it is well formed.
pub open spec fn room_decoding(b: Seq<u8>) -> Option<(Seq<char>, Seq<char>, Seq<(Seq<char>, Seq<char>)>)> {
    match fields_of(b) {
        Some(fs) => if fs.len() >= 2 && fs[0].0 == 1 && valid_utf8(fs[0].1) && fs[1].0 == 2 && valid_utf8(fs[1].1)
            && refs_from(fs, 2) is Some {
            Some((decode_utf8(fs[0].1), decode_utf8(fs[1].1), refs_from(fs, 2)->Some_0))
        } else {
            None
        },
        None => None,
    }
}

fn encode_ref(e: &EntityRef) -> (r: Option<Vec<u8>>)
    ensures
        match r {
            Some(v) => fields_fit(ref_fields(e@)) && v@ == fields_encoding(ref_fields(e@)),
            None => !fields_fit(ref_fields(e@)),
        },
{
    let mut fs: Vec<(u8, Vec<u8>)> = Vec::new();
    push_text(&mut fs, 1, &e.uuid);
    push_text(&mut fs, 2, &e.name);
    assert(field_views(fs@) =~= ref_fields(e@));
    encode_fields(&fs)
}

/// Every text of a room fits its length prefix.
pub open spec fn room_fits(room: Room) -> bool {
    fields_fit(room_fields(room))
        && forall|k: int| 0 <= k < room.accessories@.len() ==> fields_fit(ref_fields(#[trigger] room.accessories@[k]@))
}

/// Encodes a room; `None` when a text is too long for its length prefix.
pub fn encode_room(room: &Room) -> (r: Option<Vec<u8>>)
    ensures
        match r {
            Some(v) => room_fits(*room) && v@ == fields_encoding(room_fields(*room)),
            None => !room_fits(*room),
        },
{
    let mut fs: Vec<(u8, Vec<u8>)> = Vec::new();
    push_text(&mut fs, 1, &room.uuid);
    push_text(&mut fs, 2, &room.name);
    let ghost head = field_views(fs@);
    let mut i: usize = 0;
    while i < room.accessories.len()
        invariant
            i <= room.accessories@.len(),
            field_views(fs@) == head + ref_views(room.accessories@.subrange(0, i as int)).map_values(
                |e: (Seq<char>, Seq<char>)| (3u8, fields_encoding(ref_fields(e)))),
            forall|k: int| 0 <= k < i ==> fields_fit(ref_fields(#[trigger] room.accessories@[k]@)),
        decreases room.accessories@.len() - i,
    {
        let nested = match encode_ref(&room.accessories[i]) {
            Some(v) => v,
            None => return None,
        };
        let ghost before = field_views(fs@);
        fs.push((3, nested));
        i = i + 1;
        assert(field_views(fs@) =~= head + ref_views(room.accessories@.subrange(0, i as int)).map_values(
            |e: (Seq<char>, Seq<char>)| (3u8, fields_encoding(ref_fields(e))))) by {
            assert(field_views(fs@) =~= before.push((3u8, nested@)));
            assert(ref_views(room.accessories@.subrange(0, i as int)) =~= ref_views(room.accessories@.subrange(0, i - 1)).push(room.accessories@[i - 1]@));
        }
    }
    assert(room.accessories@.subrange(0, i as int) =~= room.accessories@);
    assert(field_views(fs@) =~= room_fields(*room));
    encode_fields(&fs)
}

fn decode_ref(b: &Vec<u8>) -> (r: Option<EntityRef>)
    ensures
        match r {
            Some(e) => ref_decoding(b@) == Some(e@),
            None => ref_decoding(b@) is None,
        },
{
    let fs = match parse_fields(b) {
        Some(fs) => fs,
        None => return None,
    };
    if fs.len() != 2 {
        return None;
    }
    let ghost fv = field_views(fs@);
    assert(fv[0] == (fs@[0].0, fs@[0].1@) && fv[1] == (fs@[1].0, fs@[1].1@));
    if fs[0].0 != 1 || fs[1].0 != 2 {
        return None;
    }
    let uuid = match utf8_string(&fs[0].1) {
        Some(s) => s,
        None => return None,
    };
    let name = match utf8_string(&fs[1].1) {
        Some(s) => s,
        None => return None,
    };
    Some(EntityRef { uuid: uuid, name: name })
}

/// Decodes a room; a malformed one is an `InvalidArgument`.
pub fn decode_room(b: &Vec<u8>) -> (r: Result<Room, Code>)
    ensures
        match r {
            Ok(room) => room_decoding(b@) == Some(room_view(room)),
            Err(c) => c == Code::InvalidArgument && room_decoding(b@) is None,
        },
{
    let fs = match parse_fields(b) {
        Some(fs) => fs,
        None => return Err(Code::InvalidArgument),
    };
    if fs.len() < 2 {
        return Err(Code::InvalidArgument);
    }
    let ghost fv = field_views(fs@);
    assert(fv[0] == (fs@[0].0, fs@[0].1@) && fv[1] == (fs@[1].0, fs@[1].1@));
    if fs[0].0 != 1 || fs[1].0 != 2 {
        return Err(Code::InvalidArgument);
    }
    let uuid = match utf8_string(&fs[0].1) {
        Some(s) => s,
        None => return Err(Code::InvalidArgument),
    };
    let name = match utf8_string(&fs[1].1) {
        Some(s) => s,
        None => return Err(Code::InvalidArgument),
    };
    let n = fs.len();
    let mut refs: Vec<EntityRef> = Vec::new();
    let mut i: usize = 2;
    while i < n
        invariant
            n == fs@.len(),
            fv == field_views(fs@),
            fields_of(b@) == Some(fv),
            2 <= i <= n,
            refs_from(fv, 2) == match refs_from(fv, i as int) {
                Some(rest) => Some(ref_views(refs@) + rest),
                None => None::<Seq<(Seq<char>, Seq<char>)>>,
            },
        decreases n - i,
    {
        assert(fv[i as int] == (fs@[i as int].0, fs@[i as int].1@));
        if fs[i].0 != 3 {
            assert(refs_from(fv, i as int) is None);
            return Err(Code::InvalidArgument);
        }
        let e = match decode_ref(&fs[i].1) {
            Some(e) => e,
            None => {
                assert(refs_from(fv, i as int) is None);
                return Err(Code::InvalidArgument);
            },
        };
        let ghost before = ref_views(refs@);
        proof {
            if let Some(rest) = refs_from(fv, i + 1) {
                assert(before + (seq![e@] + rest) =~= before.push(e@) + rest);
            }
        }
        refs.push(e);
        assert(ref_views(refs@) =~= before.push(e@));
        i = i + 1;
    }
    assert(ref_views(refs@) + Seq::<(Seq<char>, Seq<char>)>::empty() =~= ref_views(refs@));
    Ok(Room { uuid: uuid, name: name, accessories: refs })
}

proof fn lemma_refs_round_trip(fs: Seq<(u8, Seq<u8>)>, rs: Seq<(Seq<char>, Seq<char>)>, from: int)
    requires
        0 <= from <= fs.len(),
        fs.len() - from == rs.len(),
        forall|k: int| 0 <= k < rs.len() ==> #[trigger] fs[from + k] == (3u8, fields_encoding(ref_fields(rs[k]))),
        forall|k: int| 0 <= k < rs.len() ==> fields_fit(ref_fields(#[trigger] rs[k])),
    ensures
        refs_from(fs, from) == Some(rs),
    decreases fs.len() - from,
{
    broadcast use encode_utf8_valid_utf8, encode_utf8_decode_utf8;

    if from < fs.len() {
        assert(fs[from + 0] == (3u8, fields_encoding(ref_fields(rs[0]))));
        assert(fields_fit(ref_fields(rs[0])));
        lemma_fields_round_trip(ref_fields(rs[0]));
        let tail = rs.drop_first();
        assert forall|k: int| 0 <= k < tail.len() implies #[trigger] fs[from + 1 + k] == (3u8, fields_encoding(ref_fields(tail[k]))) by {
            assert(fs[from + (k + 1)] == (3u8, fields_encoding(ref_fields(rs[k + 1]))));
            assert(from + 1 + k == from + (k + 1));
        }
        assert forall|k: int| 0 <= k < tail.len() implies fields_fit(ref_fields(#[trigger] tail[k])) by {
            assert(fields_fit(ref_fields(rs[k + 1])));
        }
        lemma_refs_round_trip(fs, tail, from + 1);
        assert(seq![rs[0]] + tail =~= rs);
    } else {
        assert(rs =~= Seq::<(Seq<char>, Seq<char>)>::empty());
    }
}

/// Decoding the encoding of any room gives it back, with its accessories in
/// order.
pub proof fn lemma_room_round_trip(room: Room)
    requires
        room_fits(room),
    ensures
        room_decoding(fields_encoding(room_fields(room))) == Some(room_view(room)),
{
    broadcast use encode_utf8_valid_utf8, encode_utf8_decode_utf8;

    let fs = room_fields(room);
    lemma_fields_round_trip(fs);
    let rs = ref_views(room.accessories@);
    assert forall|k: int| 0 <= k < rs.len() implies #[trigger] fs[2 + k] == (3u8, fields_encoding(ref_fields(rs[k]))) by {
    }
    assert forall|k: int| 0 <= k < rs.len() implies fields_fit(ref_fields(#[trigger] rs[k])) by {
        assert(rs[k] == room.accessories@[k]@);
    }
    lemma_refs_round_trip(fs, rs, 2);
}

} // verus!
