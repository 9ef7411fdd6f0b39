use vstd::prelude::*;

use crate::directory::{Directory, Users};

verus! {

/// One message to write to one connection.
#[derive(Debug)]
pub struct Delivery {
    /// The handle bound to the connection.
    pub to: String,
    /// The connection to write to.
    pub conn: u64,
    /// The text to write.
    pub text: String,
}

/// The line that every recipient of a broadcast receives.
pub open spec fn broadcast_text(sender: Seq<char>, msg: Seq<char>) -> Seq<char> {
    "From User "@ + sender + ": "@ + msg + "\n"@
}

/// The handles that a broadcast from connection `sender_conn` reaches: the
/// online ones bound to another connection.
pub open spec fn recipients(m: Users, sender_conn: u64) -> Set<Seq<char>> {
    Set::new(|h: Seq<char>| m.contains_key(h) && m[h].online && m[h].conn != Some(sender_conn))
}

/// `ds` is the fan-out of `text` over the directory `m` from the connection
/// `sender_conn`: one delivery to each recipient, to the connection bound to
/// it, and to no one else.
pub open spec fn is_fanout(m: Users, sender_conn: u64, text: Seq<char>, ds: Seq<Delivery>) -> bool {
    &&& forall|j: int|
        0 <= j < ds.len() ==> recipients(m, sender_conn).contains(#[trigger] ds[j].to@)
            && m[ds[j].to@].conn == Some(ds[j].conn) && ds[j].text@ == text
    &&& forall|h: Seq<char>|
        #[trigger] recipients(m, sender_conn).contains(h) ==> exists|j: int|
            0 <= j < ds.len() && #[trigger] ds[j].to@ == h
    &&& forall|i: int, j: int| 0 <= i < j < ds.len() ==> #[trigger] ds[i].to@ != #[trigger] ds[j].to@
}

/// The text `From User {sender}: {msg}` and a newline.
pub fn broadcast_line(sender: &String, msg: &String) -> (r: String)
    ensures
        r@ == broadcast_text(sender@, msg@),
{
    let mut t = String::from_str("From User ");
    t.append(sender.as_str());
    t.append(": ");
    t.append(msg.as_str());
    t.append("\n");
    t
}

/// The deliveries of a broadcast of `msg` by `sender` from the connection
/// `sender_conn`: one to every other online connection, none to the sender's
/// own connection and none to an offline handle.
pub fn broadcast(dir: &Directory, sender: &String, sender_conn: u64, msg: &String) -> (r: Vec<
    Delivery,
>)
    requires
        dir.wf(),
    ensures
        is_fanout(dir@, sender_conn, broadcast_text(sender@, msg@), r@),
{
    let text = broadcast_line(sender, msg);
    let online = dir.snapshot_online();
    let mut out: Vec<Delivery> = Vec::new();
    let mut i: usize = 0;
    while i < online.len()
        invariant
            text@ == broadcast_text(sender@, msg@),
            i <= online@.len(),
            forall|j: int|
                0 <= j < online@.len() ==> dir@.contains_key(#[trigger] online@[j].0@)
                    && dir@[online@[j].0@].online && dir@[online@[j].0@].conn == Some(online@[j].1),
            forall|h: Seq<char>|
                #[trigger] dir@.contains_key(h) && dir@[h].online ==> exists|j: int|
                    0 <= j < online@.len() && #[trigger] online@[j].0@ == h,
            forall|a: int, b: int|
                0 <= a < b < online@.len() ==> #[trigger] online@[a].0@ != #[trigger] online@[b].0@,
            forall|j: int|
                0 <= j < out@.len() ==> recipients(dir@, sender_conn).contains(#[trigger] out@[j].to@)
                    && dir@[out@[j].to@].conn == Some(out@[j].conn) && out@[j].text@ == text@,
            forall|k: int|
                #![trigger online@[k]]
                0 <= k < i && online@[k].1 != sender_conn ==> exists|j: int|
                    0 <= j < out@.len() && out@[j].to@ == online@[k].0@,
            forall|j: int|
                #![trigger out@[j]]
                0 <= j < out@.len() ==> exists|k: int| 0 <= k < i && online@[k].0@ == out@[j].to@,
            forall|a: int, b: int| 0 <= a < b < out@.len() ==> #[trigger] out@[a].to@ != #[trigger] out@[b].to@,
        decreases online@.len() - i,
    {
        let ghost before = out@;
        if online[i].1 != sender_conn {
            let d = Delivery { to: online[i].0.clone(), conn: online[i].1, text: text.clone() };
            out.push(d);
            assert(out@[out@.len() - 1].to@ == online@[i as int].0@);
            assert(recipients(dir@, sender_conn).contains(online@[i as int].0@));
            assert forall|a: int, b: int| 0 <= a < b < out@.len() implies #[trigger] out@[a].to@
                != #[trigger] out@[b].to@ by {
                assert(out@[a] == before[a]);
                if b == out@.len() - 1 {
                    let k = choose|k: int| 0 <= k < i && online@[k].0@ == before[a].to@;
                    assert(online@[k].0@ != online@[i as int].0@);
                } else {
                    assert(out@[b] == before[b]);
                }
            }
            assert forall|j: int| #![trigger out@[j]] 0 <= j < out@.len() implies exists|k: int|
                0 <= k < i + 1 && online@[k].0@ == out@[j].to@ by {
                if j == out@.len() - 1 {
                    assert(online@[i as int].0@ == out@[j].to@);
                } else {
                    assert(out@[j] == before[j]);
                    let k = choose|k: int| 0 <= k < i && online@[k].0@ == before[j].to@;
                    assert(online@[k].0@ == out@[j].to@);
                }
            }
            assert forall|k: int| #![trigger online@[k]] 0 <= k < i + 1 && online@[k].1 != sender_conn implies exists|j: int|
                0 <= j < out@.len() && out@[j].to@ == online@[k].0@ by {
                if k == i {
                    assert(out@[out@.len() - 1].to@ == online@[k].0@);
                } else {
                    let j = choose|j: int| 0 <= j < before.len() && before[j].to@ == online@[k].0@;
                    assert(out@[j] == before[j]);
                }
            }
        }
        i = i + 1;
    }
    assert forall|h: Seq<char>| #[trigger] recipients(dir@, sender_conn).contains(h) implies exists|j: int|
        0 <= j < out@.len() && #[trigger] out@[j].to@ == h by {
        assert(dir@.contains_key(h) && dir@[h].online);
        let k = choose|k: int| 0 <= k < online@.len() && #[trigger] online@[k].0@ == h;
        assert(online@[k].1 != sender_conn);
        let j = choose|j: int| 0 <= j < out@.len() && out@[j].to@ == online@[k].0@;
        assert(out@[j].to@ == h);
    }
    out
}

} // verus!
