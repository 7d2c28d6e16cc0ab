//! Servers of a profile that would expose the same tools: those installed
//! from the same catalog entry, or launched by the same command line.

use vstd::prelude::*;
use crate::models::{ConflictingServer, Server, ToolConflict};
use crate::text::same_text;

verus! {

/// What identifies the tools of a server: its catalog entry, or else its
/// command and arguments.
pub open spec fn tool_key(s: Server) -> Seq<char> {
    match s.marketplace_id {
        Some(m) => m@,
        None => s.command@ + ":"@ + s.args@,
    }
}

/// The tool keys of `v`, each once, in order of first appearance.
pub open spec fn distinct_keys(v: Seq<Server>) -> Seq<Seq<char>>
    decreases v.len(),
{
    if v.len() == 0 {
        Seq::empty()
    } else {
        let prior = distinct_keys(v.drop_last());
        let k = tool_key(v.last());
        if prior.contains(k) {
            prior
        } else {
            prior.push(k)
        }
    }
}

/// The (id, name) of each server of `v` with tool key `k`, in order.
pub open spec fn members(v: Seq<Server>, k: Seq<char>) -> Seq<(Seq<char>, Seq<char>)>
    decreases v.len(),
{
    if v.len() == 0 {
        Seq::empty()
    } else if tool_key(v.last()) == k {
        members(v.drop_last(), k).push((v.last().id@, v.last().name@))
    } else {
        members(v.drop_last(), k)
    }
}

/// The keys of `keys` that more than one server of `v` has, in order.
pub open spec fn shared_keys(v: Seq<Server>, keys: Seq<Seq<char>>) -> Seq<Seq<char>>
    decreases keys.len(),
{
    if keys.len() == 0 {
        Seq::empty()
    } else if members(v, keys.last()).len() > 1 {
        shared_keys(v, keys.drop_last()).push(keys.last())
    } else {
        shared_keys(v, keys.drop_last())
    }
}

/// The view of the servers of a conflict.
pub open spec fn conflict_members(c: ToolConflict) -> Seq<(Seq<char>, Seq<char>)> {
    Seq::new(c.servers@.len(), |i: int| (c.servers@[i].id@, c.servers@[i].name@))
}

/// The tool key of a server.
pub fn tool_key_text(s: &Server) -> (r: String)
    ensures
        r@ == tool_key(*s),
{
    match &s.marketplace_id {
        Some(m) => m.clone(),
        None => s.command.clone().concat(":").concat(s.args.as_str()),
    }
}

fn distinct_tool_keys(v: &Vec<Server>) -> (r: Vec<String>)
    ensures
        r.deep_view() == distinct_keys(v@),
{
    let mut out: Vec<String> = Vec::new();
    let mut i: usize = 0;
    while i < v.len()
        invariant
            i <= v@.len(),
            out.deep_view() == distinct_keys(v@.subrange(0, i as int)),
        decreases v@.len() - i,
    {
        let ghost next = v@.subrange(0, i + 1);
        assert(next.drop_last() =~= v@.subrange(0, i as int));
        let k = tool_key_text(&v[i]);
        let mut seen = false;
        let mut j: usize = 0;
        while j < out.len()
            invariant
                j <= out@.len(),
                !seen ==> forall|t: int| 0 <= t < j ==> out@[t]@ != k@,
                seen ==> out.deep_view().contains(k@),
            decreases out@.len() - j,
        {
            if same_text(out[j].as_str(), k.as_str()) {
                seen = true;
                assert(out.deep_view()[j as int] == k@);
            }
            j = j + 1;
        }
        if !seen {
            assert(!out.deep_view().contains(k@)) by {
                if out.deep_view().contains(k@) {
                    let t = choose|t: int| 0 <= t < out.deep_view().len() && out.deep_view()[t] == k@;
                    assert(out@[t]@ == k@);
                }
            }
            let ghost before = out.deep_view();
            out.push(k);
            assert(out.deep_view() =~= before.push(tool_key(v@[i as int])));
        }
        i = i + 1;
    }
    assert(v@.subrange(0, v@.len() as int) =~= v@);
    out
}

fn members_of(v: &Vec<Server>, key: &str) -> (r: Vec<ConflictingServer>)
    ensures
        Seq::new(r@.len(), |i: int| (r@[i].id@, r@[i].name@)) == members(v@, key@),
{
    let mut out: Vec<ConflictingServer> = Vec::new();
    let mut i: usize = 0;
    while i < v.len()
        invariant
            i <= v@.len(),
            Seq::new(out@.len(), |t: int| (out@[t].id@, out@[t].name@)) == members(v@.subrange(0, i as int), key@),
        decreases v@.len() - i,
    {
        let ghost next = v@.subrange(0, i + 1);
        assert(next.drop_last() =~= v@.subrange(0, i as int));
        let k = tool_key_text(&v[i]);
        if same_text(k.as_str(), key) {
            let ghost before = Seq::new(out@.len(), |t: int| (out@[t].id@, out@[t].name@));
            out.push(ConflictingServer { id: v[i].id.clone(), name: v[i].name.clone() });
            assert(Seq::new(out@.len(), |t: int| (out@[t].id@, out@[t].name@)) =~= before.push(
                (v@[i as int].id@, v@[i as int].name@),
            ));
        }
        i = i + 1;
    }
    assert(v@.subrange(0, v@.len() as int) =~= v@);
    out
}

/// The tool conflicts among `servers`: for each tool key that more than
/// one server has, in order of first appearance, the servers that have it.
pub fn find_tool_conflicts(servers: &Vec<Server>) -> (r: Vec<ToolConflict>)
    ensures
        Seq::new(r@.len(), |i: int| r@[i].tool_name@) == shared_keys(servers@, distinct_keys(servers@)),
        forall|i: int| 0 <= i < r@.len() ==> conflict_members(#[trigger] r@[i]) == members(servers@, r@[i].tool_name@),
{
    let keys = distinct_tool_keys(servers);
    let mut out: Vec<ToolConflict> = Vec::new();
    let mut i: usize = 0;
    while i < keys.len()
        invariant
            i <= keys@.len(),
            keys.deep_view() == distinct_keys(servers@),
            Seq::new(out@.len(), |t: int| out@[t].tool_name@) == shared_keys(servers@, keys.deep_view().subrange(0, i as int)),
            forall|t: int| 0 <= t < out@.len() ==> conflict_members(#[trigger] out@[t]) == members(servers@, out@[t].tool_name@),
        decreases keys@.len() - i,
    {
        let ghost next = keys.deep_view().subrange(0, i + 1);
        assert(next.drop_last() =~= keys.deep_view().subrange(0, i as int));
        assert(next.last() == keys@[i as int]@);
        let group = members_of(servers, keys[i].as_str());
        if group.len() > 1 {
            let ghost before = Seq::new(out@.len(), |t: int| out@[t].tool_name@);
            let c = ToolConflict { tool_name: keys[i].clone(), servers: group };
            assert(conflict_members(c) =~= members(servers@, keys@[i as int]@));
            out.push(c);
            assert(Seq::new(out@.len(), |t: int| out@[t].tool_name@) =~= before.push(keys@[i as int]@));
        }
        i = i + 1;
    }
    assert(keys.deep_view().subrange(0, keys@.len() as int) =~= keys.deep_view());
    out
}

} // verus!
