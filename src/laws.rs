use vstd::prelude::*;

use crate::directory::{
    authenticate_spec, change_credential_spec, deauthenticate_spec, register_spec, Users,
};
use crate::error::ChatError;
use crate::fanout::{is_fanout, recipients, Delivery};

verus! {

/// The directory after the registrations of `h` with the credentials `creds`,
/// made one after another as the directory's lock orders them, with the
/// number that succeeded and the number that failed `AlreadyExists`.
pub open spec fn register_runs(m: Users, h: Seq<char>, creds: Seq<Seq<char>>) -> (Users, nat, nat)
    decreases creds.len(),
{
    if creds.len() == 0 {
        (m, 0, 0)
    } else {
        let (m1, ok, taken) = register_runs(m, h, creds.drop_last());
        let (m2, res) = register_spec(m1, h, creds.last());
        if res is Ok {
            (m2, ok + 1, taken)
        } else if res == Err::<(), ChatError>(ChatError::AlreadyExists) {
            (m2, ok, taken + 1)
        } else {
            (m2, ok, taken)
        }
    }
}

/// Of `n` registrations of a handle that was not known, however the lock
/// orders them, exactly one succeeds and the other `n - 1` fail
/// `AlreadyExists`; of those of a known handle, all fail `AlreadyExists`.
pub proof fn lemma_register_race(m: Users, h: Seq<char>, creds: Seq<Seq<char>>)
    requires
        creds.len() >= 1,
    ensures
        register_runs(m, h, creds).0.contains_key(h),
        register_runs(m, h, creds).1 == (if m.contains_key(h) { 0nat } else { 1nat }),
        register_runs(m, h, creds).1 + register_runs(m, h, creds).2 == creds.len(),
    decreases creds.len(),
{
    if creds.len() > 1 {
        lemma_register_race(m, h, creds.drop_last());
    } else {
        assert(register_runs(m, h, creds.drop_last()) == (m, 0nat, 0nat));
    }
}

/// A credential that is not the handle's own never logs it in and never
/// changes the directory; where the handle is known and offline the
/// failure is `WrongCredential`.
pub proof fn lemma_wrong_credential(m: Users, h: Seq<char>, cred: Seq<char>, conn: u64)
    requires
        m.contains_key(h) ==> m[h].pass != cred,
    ensures
        authenticate_spec(m, h, cred, conn).0 == m,
        authenticate_spec(m, h, cred, conn).1 is Err,
        m.contains_key(h) && !m[h].online ==> authenticate_spec(m, h, cred, conn).1 == Err::<
            (),
            ChatError,
        >(ChatError::WrongCredential),
{
}

/// After a credential change succeeds the handle is offline; the new
/// credential then logs it in, and the old one, where it differs, fails
/// `WrongCredential`.
pub proof fn lemma_change_then_login(
    m: Users,
    h: Seq<char>,
    old_cred: Seq<char>,
    new_cred: Seq<char>,
    conn: u64,
)
    requires
        change_credential_spec(m, h, old_cred, new_cred).1 is Ok,
    ensures
        ({
            let m1 = change_credential_spec(m, h, old_cred, new_cred).0;
            &&& m1.contains_key(h)
            &&& !m1[h].online
            &&& m1[h].pass == new_cred
            &&& authenticate_spec(m1, h, new_cred, conn).1 is Ok
            &&& old_cred != new_cred ==> authenticate_spec(m1, h, old_cred, conn) == (
                m1,
                Err::<(), ChatError>(ChatError::WrongCredential),
            )
        }),
{
}

/// Logging out a handle that is not logged in fails `NotLoggedIn` and
/// changes nothing, so a second attempt fails in the same way.
pub proof fn lemma_logout_idempotent(m: Users, h: Seq<char>)
    requires
        !m.contains_key(h) || !m[h].online,
    ensures
        deauthenticate_spec(m, h) == (m, Err::<(), ChatError>(ChatError::NotLoggedIn)),
        deauthenticate_spec(deauthenticate_spec(m, h).0, h) == (
            m,
            Err::<(), ChatError>(ChatError::NotLoggedIn),
        ),
{
}

/// The handles that a fan-out `ds` writes to, in order.
pub open spec fn targets(ds: Seq<Delivery>) -> Seq<Seq<char>> {
    ds.map_values(|d: Delivery| d.to@)
}

/// A fan-out of `text` from connection `sender_conn` writes `text` once to
/// each handle online on another connection and to nothing else: no offline
/// handle and no handle bound to the sender's connection receives it, and
/// there are exactly as many deliveries as such recipients (none where
/// there are none).
pub proof fn lemma_fanout_exact(m: Users, sender_conn: u64, text: Seq<char>, ds: Seq<Delivery>)
    requires
        is_fanout(m, sender_conn, text, ds),
    ensures
        targets(ds).to_set() == recipients(m, sender_conn),
        targets(ds).no_duplicates(),
        ds.len() == recipients(m, sender_conn).len(),
        forall|j: int|
            0 <= j < ds.len() ==> m.contains_key(#[trigger] ds[j].to@) && m[ds[j].to@].online
                && m[ds[j].to@].conn == Some(ds[j].conn) && ds[j].conn != sender_conn
                && ds[j].text@ == text,
        forall|h: Seq<char>|
            m.contains_key(h) && !m[h].online ==> forall|j: int|
                0 <= j < ds.len() ==> #[trigger] ds[j].to@ != h,
        recipients(m, sender_conn).len() == 0 ==> ds.len() == 0,
{
    let t = targets(ds);
    assert forall|i: int, j: int| 0 <= i < t.len() && 0 <= j < t.len() && i != j implies t[i]
        != t[j] by {
        if i < j {
            assert(ds[i].to@ != ds[j].to@);
        } else {
            assert(ds[j].to@ != ds[i].to@);
        }
    }
    assert forall|h: Seq<char>| t.to_set().contains(h) <==> recipients(m, sender_conn).contains(h) by {
        if t.to_set().contains(h) {
            let j = choose|j: int| 0 <= j < t.len() && t[j] == h;
            assert(recipients(m, sender_conn).contains(ds[j].to@));
        }
        if recipients(m, sender_conn).contains(h) {
            let j = choose|j: int| 0 <= j < ds.len() && #[trigger] ds[j].to@ == h;
            assert(t[j] == h);
        }
    }
    assert(t.to_set() =~= recipients(m, sender_conn));
    t.unique_seq_to_set();
    assert forall|j: int| 0 <= j < ds.len() implies m.contains_key(#[trigger] ds[j].to@)
        && m[ds[j].to@].online && m[ds[j].to@].conn == Some(ds[j].conn) && ds[j].conn
        != sender_conn && ds[j].text@ == text by {
        assert(recipients(m, sender_conn).contains(ds[j].to@));
    }
    assert forall|h: Seq<char>| m.contains_key(h) && !m[h].online implies forall|j: int|
        0 <= j < ds.len() ==> #[trigger] ds[j].to@ != h by {
        assert forall|j: int| 0 <= j < ds.len() implies #[trigger] ds[j].to@ != h by {
            assert(recipients(m, sender_conn).contains(ds[j].to@));
        }
    }
}

} // verus!
