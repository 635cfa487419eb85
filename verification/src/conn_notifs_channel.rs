//! A connection-notification channel that delivers to the receiver only the
//! last of the messages pushed for a key since that key was last delivered.
//! Messages are coalesced per key: a newer notification for a peer replaces
//! the pending one in place, while pending notifications for distinct peers
//! queue up in arrival order.

use vstd::prelude::*;

verus! {

/// Why a peer connection went away.
#[derive(Clone, Copy, Debug, PartialEq, Eq)]
pub enum DisconnectReason {
    ConnectionLost,
    Requested,
}

/// A connection event for one peer.
#[derive(Clone, Copy, Debug, PartialEq, Eq)]
pub enum ConnectionNotification {
    NewPeer(u64),
    LostPeer(u64, DisconnectReason),
}

/// At most one pending notification per key.
pub open spec fn channel_wf(s: Seq<(u64, ConnectionNotification)>) -> bool {
    forall|i: int, j: int| 0 <= i < j < s.len() ==> (#[trigger] s[i]).0 != (#[trigger] s[j]).0
}

/// Whether some pending entry carries `key`.
pub open spec fn has_key(s: Seq<(u64, ConnectionNotification)>, key: u64) -> bool {
    exists|i: int| 0 <= i < s.len() && (#[trigger] s[i]).0 == key
}

/// The channel: pending notifications in arrival order of their keys, one
/// slot per key, the newest message winning the slot.
pub struct ConnNotifsChannel {
    entries: Vec<(u64, ConnectionNotification)>,
}

impl View for ConnNotifsChannel {
    type V = Seq<(u64, ConnectionNotification)>;

    closed spec fn view(&self) -> Seq<(u64, ConnectionNotification)> {
        self.entries@
    }
}

impl ConnNotifsChannel {
    /// Replaces the pending notification for `key` in place, or queues the
    /// key behind the others if it has no pending notification yet.
    pub fn push(&mut self, key: u64, message: ConnectionNotification)
        requires
            channel_wf(old(self)@),
        ensures
            channel_wf(final(self)@),
            final(self)@.len() == if has_key(old(self)@, key) {
                old(self)@.len()
            } else {
                old(self)@.len() + 1
            },
            forall|k: int|
                0 <= k < old(self)@.len() ==> final(self)@[k] == (if (#[trigger] old(
                    self,
                )@[k]).0 == key {
                    (key, message)
                } else {
                    old(self)@[k]
                }),
            !has_key(old(self)@, key) ==> final(self)@[old(self)@.len() as int] == (key, message),
    {
        let n: usize = self.entries.len();
        let mut out: Vec<(u64, ConnectionNotification)> = Vec::new();
        let mut replaced: bool = false;
        let mut i: usize = 0;
        while i < n
            invariant
                n == old(self)@.len(),
                self@ == old(self)@,
                channel_wf(old(self)@),
                i <= n,
                out@.len() == i,
                forall|k: int|
                    0 <= k < i ==> out@[k] == (if (#[trigger] old(self)@[k]).0 == key {
                        (key, message)
                    } else {
                        old(self)@[k]
                    }),
                replaced == exists|k: int| 0 <= k < i && (#[trigger] old(self)@[k]).0 == key,
            decreases n - i,
        {
            let entry = self.entries[i];
            if entry.0 == key {
                out.push((key, message));
                replaced = true;
            } else {
                out.push(entry);
            }
            i = i + 1;
        }
        if !replaced {
            out.push((key, message));
        }
        self.entries = out;
        proof {
            let s0 = old(self)@;
            let s1 = final(self)@;
            assert forall|p: int, q: int| 0 <= p < q < s1.len() implies (#[trigger] s1[p]).0 != (
            #[trigger] s1[q]).0 by {
                if has_key(s0, key) {
                    assert(s1[p].0 == s0[p].0 && s1[q].0 == s0[q].0);
                } else {
                    if q < s0.len() {
                        assert(s1[p].0 == s0[p].0 && s1[q].0 == s0[q].0);
                    } else {
                        assert(s1[q] == (key, message));
                        assert(s1[p].0 == s0[p].0);
                        assert(s0[p].0 != key);
                    }
                }
            }
        }
    }

    /// Hands out the oldest pending notification, freeing its key's slot.
    pub fn pop(&mut self) -> (r: Option<ConnectionNotification>)
        requires
            channel_wf(old(self)@),
        ensures
            channel_wf(final(self)@),
            old(self)@.len() == 0 ==> r is None && final(self)@ == old(self)@,
            old(self)@.len() > 0 ==> r == Some(old(self)@[0].1) && final(self)@ == old(
                self,
            )@.drop_first(),
    {
        if self.entries.len() == 0 {
            None
        } else {
            let entry = self.entries.remove(0);
            proof {
                assert(old(self)@.remove(0) =~= old(self)@.drop_first());
                let s1 = final(self)@;
                assert forall|p: int, q: int| 0 <= p < q < s1.len() implies (#[trigger] s1[p]).0
                    != (#[trigger] s1[q]).0 by {
                    assert(s1[p] == old(self)@[p + 1] && s1[q] == old(self)@[q + 1]);
                }
            }
            Some(entry.1)
        }
    }
}

/// Builds an empty channel.
pub fn new() -> (r: ConnNotifsChannel)
    ensures
        r@ == Seq::<(u64, ConnectionNotification)>::empty(),
        channel_wf(r@),
{
    ConnNotifsChannel { entries: Vec::new() }
}

} // verus!
