//! The activity echoed back in reply to SET_ACTIVITY.
//!
//! An activity that is a JSON object is modelled by its members, in order,
//! each key once; a member's value is a JSON string or, for any other JSON
//! value, its JSON text. The echo is the activity stamped with an empty
//! `name`, the client's id as `application_id`, and a `type` of 0 unless it
//! has one. Any other JSON value is echoed as it came.

use vstd::prelude::*;

use vstd::string::StringExecFns;

use super::activities::opt_view;

verus! {

/// A member value of a JSON object.
pub enum JsonMember {
    /// A JSON string, by its contents.
    Text(String),
    /// Any other JSON value, as its JSON text.
    Json(String),
}

/// The value a `JsonMember` stands for.
pub enum MemberView {
    Text(Seq<char>),
    Json(Seq<char>),
}

pub open spec fn member_view(m: JsonMember) -> MemberView {
    match m {
        JsonMember::Text(s) => MemberView::Text(s@),
        JsonMember::Json(s) => MemberView::Json(s@),
    }
}

/// An object's members as keys and member values.
pub open spec fn members_view(ms: Seq<(String, JsonMember)>) -> Seq<(Seq<char>, MemberView)> {
    ms.map_values(|p: (String, JsonMember)| (p.0@, member_view(p.1)))
}

/// The first index from `i` on whose key is `k`.
pub open spec fn key_index_from(ms: Seq<(Seq<char>, MemberView)>, k: Seq<char>, i: int) -> Option<int>
    decreases ms.len() - i,
{
    if i < 0 || i >= ms.len() {
        None
    } else if ms[i].0 == k {
        Some(i)
    } else {
        key_index_from(ms, k, i + 1)
    }
}

pub open spec fn key_index(ms: Seq<(Seq<char>, MemberView)>, k: Seq<char>) -> Option<int> {
    key_index_from(ms, k, 0)
}

/// The member `k` set to `v`: replaced where it is, or added at the end.
pub open spec fn set_member(ms: Seq<(Seq<char>, MemberView)>, k: Seq<char>, v: MemberView) -> Seq<(Seq<char>, MemberView)> {
    match key_index(ms, k) {
        Some(i) => ms.update(i, (k, v)),
        None => ms.push((k, v)),
    }
}

/// The member `k` added with value `v` unless the object has one.
pub open spec fn default_member(ms: Seq<(Seq<char>, MemberView)>, k: Seq<char>, v: MemberView) -> Seq<(Seq<char>, MemberView)> {
    match key_index(ms, k) {
        Some(_) => ms,
        None => ms.push((k, v)),
    }
}

/// An activity object as echoed to the client `client_id`: `name` set to
/// the empty string, `application_id` set to the client id, and `type`
/// defaulted to 0.
pub open spec fn stamped(ms: Seq<(Seq<char>, MemberView)>, client_id: Seq<char>) -> Seq<(Seq<char>, MemberView)> {
    default_member(
        set_member(set_member(ms, "name"@, MemberView::Text(""@)), "application_id"@, MemberView::Text(client_id)),
        "type"@,
        MemberView::Json("0"@),
    )
}

/// The activity of a SET_ACTIVITY request: its JSON text, and its members
/// when it is a JSON object.
pub struct ActivityIn {
    pub text: String,
    pub members: Option<Vec<(String, JsonMember)>>,
}

/// The data of a SET_ACTIVITY reply: the stamped object, or a non-object
/// activity as its JSON text.
pub enum EchoData {
    Object(Vec<(String, JsonMember)>),
    Verbatim(String),
}

/// The value an `EchoData` stands for.
pub enum EchoView {
    Object(Seq<(Seq<char>, MemberView)>),
    Verbatim(Seq<char>),
}

pub open spec fn echo_view(d: Option<EchoData>) -> Option<EchoView> {
    match d {
        Some(EchoData::Object(ms)) => Some(EchoView::Object(members_view(ms@))),
        Some(EchoData::Verbatim(t)) => Some(EchoView::Verbatim(t@)),
        None => None,
    }
}

/// The JSON text of the activity stored for the connection, if any.
pub open spec fn activity_text(a: Option<ActivityIn>) -> Option<Seq<char>> {
    match a {
        Some(x) => Some(x.text@),
        None => None,
    }
}

/// What is echoed for an activity sent by the client `client_id`: nothing
/// (`null`) for none, the stamped members for an object, the activity
/// itself otherwise.
pub open spec fn echo_for(a: Option<ActivityIn>, client_id: Seq<char>) -> Option<EchoView> {
    match a {
        None => None,
        Some(x) => match x.members {
            Some(ms) => Some(EchoView::Object(stamped(members_view(ms@), client_id))),
            None => Some(EchoView::Verbatim(x.text@)),
        },
    }
}

fn find_key(ms: &Vec<(String, JsonMember)>, k: &String) -> (r: Option<usize>)
    ensures
        match r {
            Some(i) => i < ms@.len() && key_index(members_view(ms@), k@) == Some(i as int),
            None => key_index(members_view(ms@), k@) is None,
        },
{
    let ghost mv = members_view(ms@);
    let mut i: usize = 0;
    while i < ms.len()
        invariant
            i <= ms@.len(),
            mv == members_view(ms@),
            key_index_from(mv, k@, 0) == key_index_from(mv, k@, i as int),
        decreases ms@.len() - i,
    {
        assert(mv[i as int].0 == ms@[i as int].0@);
        if ms[i].0 == *k {
            return Some(i);
        }
        i = i + 1;
    }
    None
}

fn put_member(ms: &mut Vec<(String, JsonMember)>, k: &str, v: JsonMember, replace: bool)
    ensures
        members_view(final(ms)@) == if replace {
            set_member(members_view(old(ms)@), k@, member_view(v))
        } else {
            default_member(members_view(old(ms)@), k@, member_view(v))
        },
{
    let key = String::from_str(k);
    let ghost mv = member_view(v);
    match find_key(ms, &key) {
        Some(i) => {
            if replace {
                ms.set(i, (key, v));
                assert(members_view(ms@) =~= members_view(old(ms)@).update(i as int, (k@, mv)));
            }
        },
        None => {
            ms.push((key, v));
            assert(members_view(ms@) =~= members_view(old(ms)@).push((k@, mv)));
        },
    }
}

/// Stamps an activity object for the reply to the client `client_id`.
pub fn stamp_activity(members: Vec<(String, JsonMember)>, client_id: &String) -> (r: Vec<(String, JsonMember)>)
    ensures
        members_view(r@) == stamped(members_view(members@), client_id@),
{
    proof {
        reveal_strlit("");
    }
    let mut ms = members;
    let ghost m0 = members_view(members@);
    let empty = String::new();
    assert(empty@ == ""@);
    put_member(&mut ms, "name", JsonMember::Text(empty), true);
    let ghost m1 = set_member(m0, "name"@, MemberView::Text(""@));
    assert(members_view(ms@) == m1);
    let id = client_id.clone();
    assert(id@ == client_id@);
    put_member(&mut ms, "application_id", JsonMember::Text(id), true);
    let ghost m2 = set_member(m1, "application_id"@, MemberView::Text(client_id@));
    assert(members_view(ms@) == m2);
    let zero = String::from_str("0");
    assert(zero@ == "0"@);
    put_member(&mut ms, "type", JsonMember::Json(zero), false);
    ms
}

/// The reply data for an activity sent by the client `client_id`, and the
/// activity's JSON text to store for the connection.
pub fn echo_activity(activity: Option<ActivityIn>, client_id: &String) -> (r: (Option<String>, Option<EchoData>))
    ensures
        opt_view(r.0) == activity_text(activity),
        echo_view(r.1) == echo_for(activity, client_id@),
{
    match activity {
        None => (None, None),
        Some(ActivityIn { text, members }) => match members {
            Some(ms) => (Some(text), Some(EchoData::Object(stamp_activity(ms, client_id)))),
            None => {
                let echoed = text.clone();
                (Some(text), Some(EchoData::Verbatim(echoed)))
            },
        },
    }
}

} // verus!
