use vstd::prelude::*;
use crate::schema::{
    Accessory, ActionSet, Code, EntityRef, Home, Room, Service, ServiceGroup, Trigger, Zone,
};

verus! {

/// What `str::to_lowercase` gives for a text.
pub uninterp spec fn lower_of(s: Seq<char>) -> Seq<char>;

/// Relies on str::to_lowercase: the result depends on the characters alone,
/// and the empty text stays empty.
#[verifier::external_body]
fn lowercase(s: &str) -> (r: String)
    ensures
        r@ == lower_of(s@),
        s@.len() == 0 ==> r@.len() == 0,
{
    s.to_lowercase()
}

/// `needle` occurs in `hay` as a contiguous run.
pub open spec fn contains_text(hay: Seq<char>, needle: Seq<char>) -> bool {
    exists|i: int| 0 <= i <= hay.len() - needle.len() && #[trigger] hay.subrange(i, i + needle.len()) == needle
}

/// The match rule on case-folded texts: an empty filter matches anything;
/// otherwise the filter must equal the uuid or occur in the name.
pub open spec fn folded_match(filter: Seq<char>, uuid: Seq<char>, name: Seq<char>) -> bool {
    filter.len() == 0 || uuid == filter || contains_text(name, filter)
}

/// An entity with `uuid` and `name` passes `filter`: the filter is empty, or
/// equals the uuid ignoring case, or occurs in the name ignoring case.
pub open spec fn filter_matches(filter: Seq<char>, uuid: Seq<char>, name: Seq<char>) -> bool {
    filter.len() == 0 || folded_match(lower_of(filter), lower_of(uuid), lower_of(name))
}

fn chars_of(s: &str) -> (r: Vec<char>)
    ensures
        r@ == s@,
{
    let n = s.unicode_len();
    let mut r: Vec<char> = Vec::new();
    let mut i: usize = 0;
    while i < n
        invariant
            n == s@.len(),
            i <= n,
            r@ == s@.subrange(0, i as int),
        decreases n - i,
    {
        r.push(s.get_char(i));
        i = i + 1;
        assert(r@ =~= s@.subrange(0, i as int));
    }
    assert(r@ =~= s@);
    r
}

fn occurs_at(hay: &Vec<char>, needle: &Vec<char>, at: usize) -> (r: bool)
    requires
        at + needle@.len() <= hay@.len(),
    ensures
        r == (hay@.subrange(at as int, at + needle@.len()) == needle@),
{
    let hl = hay.len();
    let mut k: usize = 0;
    while k < needle.len()
        invariant
            hl == hay@.len(),
            at + needle@.len() <= hay@.len(),
            k <= needle@.len(),
            hay@.subrange(at as int, at + k) == needle@.subrange(0, k as int),
        decreases needle@.len() - k,
    {
        if hay[at + k] != needle[k] {
            assert(hay@.subrange(at as int, at + needle@.len())[k as int] != needle@[k as int]);
            return false;
        }
        k = k + 1;
        assert(hay@.subrange(at as int, at + k) =~= needle@.subrange(0, k as int));
    }
    assert(needle@.subrange(0, k as int) =~= needle@);
    true
}

fn contains_chars(hay: &Vec<char>, needle: &Vec<char>) -> (r: bool)
    ensures
        r == contains_text(hay@, needle@),
{
    if needle.len() > hay.len() {
        return false;
    }
    let last = hay.len() - needle.len();
    let mut i: usize = 0;
    while i <= last
        invariant
            last == hay@.len() - needle@.len(),
            i <= last,
            forall|j: int| 0 <= j < i ==> #[trigger] hay@.subrange(j, j + needle@.len()) != needle@,
        decreases last + 1 - i,
    {
        if occurs_at(hay, needle, i) {
            return true;
        }
        if i == last {
            return false;
        }
        i = i + 1;
    }
    false
}

/// The match rule on texts that are already case-folded.
pub fn matches_folded(filter: &str, uuid: &str, name: &str) -> (r: bool)
    ensures
        r == folded_match(filter@, uuid@, name@),
{
    let f = chars_of(filter);
    if f.len() == 0 {
        return true;
    }
    let u = chars_of(uuid);
    if u.len() == f.len() {
        let same = occurs_at(&u, &f, 0);
        assert(u@.subrange(0, f@.len() as int) =~= u@);
        if same {
            return true;
        }
    }
    let n = chars_of(name);
    contains_chars(&n, &f)
}

/// Whether an entity with `uuid` and `name` passes `filter`.
pub fn name_filter_matches(filter: &str, uuid: &str, name: &str) -> (r: bool)
    ensures
        r == filter_matches(filter@, uuid@, name@),
{
    if filter.unicode_len() == 0 {
        return true;
    }
    let f = lowercase(filter);
    let u = lowercase(uuid);
    let n = lowercase(name);
    matches_folded(f.as_str(), u.as_str(), n.as_str())
}

/// An entity that a filter can select: it has a uuid and a name.
pub trait Named {
    spec fn uuid_view(&self) -> Seq<char>;

    spec fn name_view(&self) -> Seq<char>;

    fn uuid_str(&self) -> (r: &str)
        ensures
            r@ == self.uuid_view(),
    ;

    fn name_str(&self) -> (r: &str)
        ensures
            r@ == self.name_view(),
    ;
}

/// `x` passes `filter`.
pub open spec fn passes<T: Named>(x: T, filter: Seq<char>) -> bool {
    filter_matches(filter, x.uuid_view(), x.name_view())
}

/// The items of `items` that pass `filter`, in order.
pub open spec fn selected<T: Named>(items: Seq<T>, filter: Seq<char>) -> Seq<T> {
    items.filter(|x: T| passes(x, filter))
}

/// The references of `r`, followed.
pub open spec fn deref_all<T>(r: Seq<&T>) -> Seq<T> {
    r.map_values(|x: &T| *x)
}

/// The items that pass `filter`, in their order; all of them when the filter
/// is empty.
pub fn select_named<'a, T: Named>(items: &'a Vec<T>, filter: &str) -> (r: Vec<&'a T>)
    ensures
        deref_all(r@) == selected(items@, filter@),
{
    let mut r: Vec<&'a T> = Vec::new();
    let mut i: usize = 0;
    while i < items.len()
        invariant
            i <= items@.len(),
            deref_all(r@) == selected(items@.subrange(0, i as int), filter@),
        decreases items@.len() - i,
    {
        let x = &items[i];
        let keep = name_filter_matches(filter, x.uuid_str(), x.name_str());
        proof {
            let s = items@.subrange(0, i + 1);
            assert(s.drop_last() =~= items@.subrange(0, i as int));
            reveal_with_fuel(Seq::filter, 1);
        }
        if keep {
            r.push(x);
        }
        i = i + 1;
        assert(deref_all(r@) =~= selected(items@.subrange(0, i as int), filter@));
    }
    assert(items@.subrange(0, i as int) =~= items@);
    r
}

/// Which home a request's `home` field selects.
pub open spec fn home_selection(homes: Seq<Home>, filter: Seq<char>) -> Result<int, Code> {
    if filter.len() == 0 {
        if exists|i: int| 0 <= i < homes.len() && #[trigger] homes[i].is_primary {
            Ok(choose|i: int| 0 <= i < homes.len() && #[trigger] homes[i].is_primary)
        } else {
            Err(Code::NotFound)
        }
    } else {
        if exists|i: int, j: int|
            0 <= i < j < homes.len() && #[trigger] passes(homes[i], filter) && #[trigger] passes(homes[j], filter) {
            Err(Code::InvalidArgument)
        } else if exists|i: int| 0 <= i < homes.len() && #[trigger] passes(homes[i], filter) {
            Ok(choose|i: int| 0 <= i < homes.len() && #[trigger] passes(homes[i], filter))
        } else {
            Err(Code::NotFound)
        }
    }
}

/// `h` is what the home filter looks for: the primary home for an empty
/// filter, else a home that passes it.
pub open spec fn home_hit(h: Home, filter: Seq<char>) -> bool {
    if filter.len() == 0 {
        h.is_primary
    } else {
        passes(h, filter)
    }
}

/// At most one home is primary.
pub open spec fn one_primary_at_most(homes: Seq<Home>) -> bool {
    forall|i: int, j: int| 0 <= i < homes.len() && 0 <= j < homes.len() && #[trigger] homes[i].is_primary
        && #[trigger] homes[j].is_primary ==> i == j
}

/// Picks the home that `filter` designates: the primary home when the filter
/// is empty, else the only home that passes it. No such home gives
/// `NotFound`; two or more that pass give `InvalidArgument`.
pub fn select_home(homes: &Vec<Home>, filter: &str) -> (r: Result<usize, Code>)
    requires
        one_primary_at_most(homes@),
    ensures
        match r {
            Ok(i) => home_selection(homes@, filter@) == Ok::<int, Code>(i as int),
            Err(c) => home_selection(homes@, filter@) == Err::<int, Code>(c),
        },
{
    let empty = filter.unicode_len() == 0;
    let mut found: Option<usize> = None;
    let mut i: usize = 0;
    while i < homes.len()
        invariant
            i <= homes@.len(),
            one_primary_at_most(homes@),
            empty == (filter@.len() == 0),
            match found {
                Some(k) => k < i && home_hit(homes@[k as int], filter@)
                    && forall|j: int| 0 <= j < i && j != k ==> !#[trigger] home_hit(homes@[j], filter@),
                None => forall|j: int| 0 <= j < i ==> !#[trigger] home_hit(homes@[j], filter@),
            },
        decreases homes@.len() - i,
    {
        let h = &homes[i];
        let hit = if empty { h.is_primary } else { name_filter_matches(filter, h.uuid_str(), h.name_str()) };
        if hit {
            if let Some(k) = found {
                proof {
                    if empty {
                        assert(homes@[k as int].is_primary && homes@[i as int].is_primary);
                    } else {
                        assert(passes(homes@[k as int], filter@) && passes(homes@[i as int], filter@));
                        assert(exists|a: int, b: int| 0 <= a < b < homes@.len() && #[trigger] passes(homes@[a], filter@)
                            && #[trigger] passes(homes@[b], filter@));
                    }
                }
                return Err(Code::InvalidArgument);
            }
            found = Some(i);
        }
        i = i + 1;
    }
    match found {
        Some(k) => {
            proof {
                if empty {
                    assert(homes@[k as int].is_primary);
                    let c = choose|c: int| 0 <= c < homes@.len() && #[trigger] homes@[c].is_primary;
                    assert(home_hit(homes@[c], filter@));
                    assert(c == k);
                } else {
                    assert(passes(homes@[k as int], filter@));
                    let c = choose|c: int| 0 <= c < homes@.len() && #[trigger] passes(homes@[c], filter@);
                    assert(home_hit(homes@[c], filter@));
                    assert(c == k);
                    assert forall|a: int, b: int| 0 <= a < b < homes@.len() && #[trigger] passes(homes@[a], filter@)
                        implies !#[trigger] passes(homes@[b], filter@) by {
                        assert(home_hit(homes@[a], filter@));
                        if passes(homes@[b], filter@) {
                            assert(home_hit(homes@[b], filter@));
                        }
                    }
                }
            }
            Ok(k)
        },
        None => {
            proof {
                if empty {
                    assert forall|c: int| 0 <= c < homes@.len() implies !#[trigger] homes@[c].is_primary by {
                        assert(!home_hit(homes@[c], filter@));
                    }
                } else {
                    assert forall|c: int| 0 <= c < homes@.len() implies !#[trigger] passes(homes@[c], filter@) by {
                        assert(!home_hit(homes@[c], filter@));
                    }
                }
            }
            Err(Code::NotFound)
        },
    }
}

impl Named for EntityRef {
    open spec fn uuid_view(&self) -> Seq<char> { self.uuid@ }
    open spec fn name_view(&self) -> Seq<char> { self.name@ }
    fn uuid_str(&self) -> (r: &str) { self.uuid.as_str() }
    fn name_str(&self) -> (r: &str) { self.name.as_str() }
}

impl Named for Home {
    open spec fn uuid_view(&self) -> Seq<char> { self.uuid@ }
    open spec fn name_view(&self) -> Seq<char> { self.name@ }
    fn uuid_str(&self) -> (r: &str) { self.uuid.as_str() }
    fn name_str(&self) -> (r: &str) { self.name.as_str() }
}

impl Named for Room {
    open spec fn uuid_view(&self) -> Seq<char> { self.uuid@ }
    open spec fn name_view(&self) -> Seq<char> { self.name@ }
    fn uuid_str(&self) -> (r: &str) { self.uuid.as_str() }
    fn name_str(&self) -> (r: &str) { self.name.as_str() }
}

impl Named for Zone {
    open spec fn uuid_view(&self) -> Seq<char> { self.uuid@ }
    open spec fn name_view(&self) -> Seq<char> { self.name@ }
    fn uuid_str(&self) -> (r: &str) { self.uuid.as_str() }
    fn name_str(&self) -> (r: &str) { self.name.as_str() }
}

impl Named for Accessory {
    open spec fn uuid_view(&self) -> Seq<char> { self.uuid@ }
    open spec fn name_view(&self) -> Seq<char> { self.name@ }
    fn uuid_str(&self) -> (r: &str) { self.uuid.as_str() }
    fn name_str(&self) -> (r: &str) { self.name.as_str() }
}

impl Named for Service {
    open spec fn uuid_view(&self) -> Seq<char> { self.uuid@ }
    open spec fn name_view(&self) -> Seq<char> { self.name@ }
    fn uuid_str(&self) -> (r: &str) { self.uuid.as_str() }
    fn name_str(&self) -> (r: &str) { self.name.as_str() }
}

impl Named for ServiceGroup {
    open spec fn uuid_view(&self) -> Seq<char> { self.uuid@ }
    open spec fn name_view(&self) -> Seq<char> { self.name@ }
    fn uuid_str(&self) -> (r: &str) { self.uuid.as_str() }
    fn name_str(&self) -> (r: &str) { self.name.as_str() }
}

impl Named for ActionSet {
    open spec fn uuid_view(&self) -> Seq<char> { self.uuid@ }
    open spec fn name_view(&self) -> Seq<char> { self.name@ }
    fn uuid_str(&self) -> (r: &str) { self.uuid.as_str() }
    fn name_str(&self) -> (r: &str) { self.name.as_str() }
}

impl Named for Trigger {
    open spec fn uuid_view(&self) -> Seq<char> { self.uuid@ }
    open spec fn name_view(&self) -> Seq<char> { self.name@ }
    fn uuid_str(&self) -> (r: &str) { self.uuid.as_str() }
    fn name_str(&self) -> (r: &str) { self.name.as_str() }
}

} // verus!
