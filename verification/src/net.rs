//! Network addresses, and which session a remote address belongs to.

use crate::text::same_text;
use vstd::prelude::*;

verus! {

/// An IP address, as a number.
#[derive(Clone, Copy, Debug, PartialEq, Eq, Structural)]
pub enum IpAddr {
    V4(u32),
    V6(u128),
}

/// A socket address.
#[derive(Clone, Copy, Debug, PartialEq, Eq, Structural)]
pub enum SocketAddr {
    V4 { ip: u32, port: u16 },
    V6 { ip: u128, port: u16, flowinfo: u32, scope_id: u32 },
}

impl IpAddr {
    /// The loopback addresses: 127.0.0.0/8 and ::1.
    pub open spec fn loopback(self) -> bool {
        match self {
            IpAddr::V4(n) => n / 0x100_0000 == 127,
            IpAddr::V6(n) => n == 1,
        }
    }

    /// The unspecified addresses: 0.0.0.0 and ::.
    pub open spec fn unspecified(self) -> bool {
        match self {
            IpAddr::V4(n) => n == 0,
            IpAddr::V6(n) => n == 0,
        }
    }

    /// Whether this is a loopback address.
    pub fn is_loopback(self) -> (r: bool)
        ensures
            r == self.loopback(),
    {
        match self {
            IpAddr::V4(n) => n / 0x100_0000 == 127,
            IpAddr::V6(n) => n == 1,
        }
    }

    /// Whether this is an unspecified address.
    pub fn is_unspecified(self) -> (r: bool)
        ensures
            r == self.unspecified(),
    {
        match self {
            IpAddr::V4(n) => n == 0,
            IpAddr::V6(n) => n == 0,
        }
    }
}

/// The socket address with this IP address and port.
pub open spec fn socket_addr(ip: IpAddr, port: u16) -> SocketAddr {
    match ip {
        IpAddr::V4(n) => SocketAddr::V4 { ip: n, port },
        IpAddr::V6(n) => SocketAddr::V6 { ip: n, port, flowinfo: 0, scope_id: 0 },
    }
}

impl SocketAddr {
    /// The socket address with this IP address and port.
    pub fn new(ip: IpAddr, port: u16) -> (r: SocketAddr)
        ensures
            r == socket_addr(ip, port),
    {
        match ip {
            IpAddr::V4(n) => SocketAddr::V4 { ip: n, port },
            IpAddr::V6(n) => SocketAddr::V6 { ip: n, port, flowinfo: 0, scope_id: 0 },
        }
    }
}

/// Which session each remote address belongs to.
pub struct AddressBook {
    entries: Vec<(SocketAddr, String)>,
}

spec fn unique(entries: Seq<(SocketAddr, String)>) -> bool {
    forall|i: int, j: int|
        0 <= i < entries.len() && 0 <= j < entries.len() && i != j ==> (#[trigger] entries[i]).0
            != (#[trigger] entries[j]).0
}

spec fn listed(entries: Seq<(SocketAddr, String)>, a: SocketAddr) -> bool {
    exists|i: int| 0 <= i < entries.len() && (#[trigger] entries[i]).0 == a
}

spec fn position(entries: Seq<(SocketAddr, String)>, a: SocketAddr) -> int {
    choose|i: int| 0 <= i < entries.len() && (#[trigger] entries[i]).0 == a
}

spec fn session_in(entries: Seq<(SocketAddr, String)>, a: SocketAddr) -> Option<Seq<char>> {
    if listed(entries, a) {
        Some(entries[position(entries, a)].1@)
    } else {
        None
    }
}

proof fn lemma_listed(entries: Seq<(SocketAddr, String)>, i: int)
    requires
        unique(entries),
        0 <= i < entries.len(),
    ensures
        session_in(entries, entries[i].0) == Some(entries[i].1@),
{
    let a = entries[i].0;
    assert(listed(entries, a));
    let p = position(entries, a);
    assert(entries[p].0 == a);
    assert(p == i);
}

proof fn lemma_kept(
    before: Seq<(SocketAddr, String)>,
    after: Seq<(SocketAddr, String)>,
    at: int,
    a: SocketAddr,
)
    requires
        unique(before),
        0 <= at < before.len(),
        after == before.remove(at),
    ensures
        unique(after),
        session_in(after, a) == (if a == before[at].0 {
            None
        } else {
            session_in(before, a)
        }),
{
    assert forall|i: int| 0 <= i < after.len() implies #[trigger] after[i] == before[if i < at {
        i
    } else {
        i + 1
    }] by {}
    assert(unique(after));
    if listed(after, a) {
        let q = position(after, a);
        let p = if q < at {
            q
        } else {
            q + 1
        };
        assert(before[p].0 == a);
        lemma_listed(before, p);
        lemma_listed(after, q);
        assert(a != before[at].0);
    } else if listed(before, a) && a != before[at].0 {
        let p = position(before, a);
        let q = if p < at {
            p
        } else {
            p - 1
        };
        assert(after[q].0 == a);
    }
}

impl AddressBook {
    /// No address is listed twice.
    pub closed spec fn wf(self) -> bool {
        unique(self.entries@)
    }

    /// The session that an address belongs to.
    pub closed spec fn session_of(self, a: SocketAddr) -> Option<Seq<char>> {
        session_in(self.entries@, a)
    }

    /// A book without addresses.
    pub fn new() -> (r: Self)
        ensures
            r.wf(),
            forall|a: SocketAddr| r.session_of(a) is None,
    {
        AddressBook { entries: Vec::new() }
    }

    /// The session that an address belongs to.
    pub fn get(&self, a: SocketAddr) -> (r: Option<&str>)
        requires
            self.wf(),
        ensures
            r is Some <==> self.session_of(a) is Some,
            r matches Some(s) ==> self.session_of(a) == Some(s@),
    {
        let mut i: usize = 0;
        while i < self.entries.len()
            invariant
                i <= self.entries@.len(),
                self.wf(),
                forall|k: int| 0 <= k < i ==> (#[trigger] self.entries@[k]).0 != a,
            decreases self.entries@.len() - i,
        {
            if self.entries[i].0 == a {
                proof {
                    lemma_listed(self.entries@, i as int);
                }
                return Some(self.entries[i].1.as_str());
            }
            i += 1;
        }
        None
    }

    fn take_out(&mut self, a: SocketAddr)
        requires
            old(self).wf(),
        ensures
            final(self).wf(),
            !listed(final(self).entries@, a),
            forall|b: SocketAddr|
                b != a ==> #[trigger] session_in(final(self).entries@, b) == session_in(
                    old(self).entries@,
                    b,
                ),
    {
        let ghost before = self.entries@;
        let mut i: usize = 0;
        while i < self.entries.len()
            invariant
                i <= self.entries@.len(),
                self.entries@ == before,
                before == old(self).entries@,
                self.wf(),
                forall|k: int| 0 <= k < i ==> (#[trigger] self.entries@[k]).0 != a,
            decreases self.entries@.len() - i,
        {
            if self.entries[i].0 == a {
                let _ = self.entries.remove(i);
                proof {
                    assert forall|b: SocketAddr| b != a implies #[trigger] session_in(
                        self.entries@,
                        b,
                    ) == session_in(before, b) by {
                        lemma_kept(before, self.entries@, i as int, b);
                    }
                    lemma_kept(before, self.entries@, i as int, a);
                }
                return ;
            }
            i += 1;
        }
    }

    /// Let an address belong to a session.
    pub fn insert(&mut self, a: SocketAddr, session_id: String)
        requires
            old(self).wf(),
        ensures
            final(self).wf(),
            forall|b: SocketAddr| #[trigger]
                final(self).session_of(b) == (if b == a {
                    Some(session_id@)
                } else {
                    old(self).session_of(b)
                }),
    {
        self.take_out(a);
        let ghost rest = self.entries@;
        self.entries.push((a, session_id));
        proof {
            let after = self.entries@;
            assert(unique(after)) by {
                assert forall|i: int, j: int|
                    0 <= i < after.len() && 0 <= j < after.len() && i != j implies (
                #[trigger] after[i]).0 != (#[trigger] after[j]).0 by {
                    if i < rest.len() {
                        assert(rest[i].0 == after[i].0);
                    }
                    if j < rest.len() {
                        assert(rest[j].0 == after[j].0);
                    }
                }
            }
            lemma_listed(after, rest.len() as int);
            assert forall|b: SocketAddr| b != a implies session_in(after, b) == session_in(rest, b) by {
                if listed(rest, b) {
                    let p = position(rest, b);
                    assert(after[p].0 == b);
                    lemma_listed(after, p);
                } else if listed(after, b) {
                    let p = position(after, b);
                    assert(after[p].0 == b);
                    assert(rest[p].0 == b);
                }
            }
        }
    }

    /// Forget the addresses of a session.
    pub fn forget(&mut self, session_id: &str)
        requires
            old(self).wf(),
        ensures
            final(self).wf(),
            forall|b: SocketAddr| #[trigger]
                final(self).session_of(b) == (if old(self).session_of(b) == Some(session_id@) {
                    None
                } else {
                    old(self).session_of(b)
                }),
    {
        let ghost first = self.entries@;
        let mut i: usize = 0;
        while i < self.entries.len()
            invariant
                i <= self.entries@.len(),
                self.wf(),
                first == old(self).entries@,
                forall|k: int| 0 <= k < i ==> (#[trigger] self.entries@[k]).1@ != session_id@,
                forall|b: SocketAddr|
                    session_in(first, b) != Some(session_id@) ==> #[trigger] session_in(
                        self.entries@,
                        b,
                    ) == session_in(first, b),
                forall|b: SocketAddr|
                    session_in(first, b) == Some(session_id@) ==> #[trigger] session_in(
                        self.entries@,
                        b,
                    ) is None || session_in(self.entries@, b) == session_in(first, b),
            decreases self.entries@.len() - i,
        {
            let ghost before = self.entries@;
            proof {
                lemma_listed(before, i as int);
            }
            if same_text(self.entries[i].1.as_str(), session_id) {
                let _ = self.entries.remove(i);
                proof {
                    let after = self.entries@;
                    let gone = before[i as int].0;
                    lemma_kept(before, after, i as int, gone);
                    assert forall|b: SocketAddr| b != gone implies #[trigger] session_in(after, b)
                        == session_in(before, b) by {
                        lemma_kept(before, after, i as int, b);
                    }
                    assert(session_in(before, gone) == Some(session_id@));
                    assert forall|k: int| 0 <= k < i implies (#[trigger] after[k]).1@
                        != session_id@ by {
                        assert(after[k] == before[k]);
                    }
                }
            } else {
                i += 1;
            }
        }
        proof {
            let last = self.entries@;
            assert forall|b: SocketAddr| session_in(first, b) == Some(session_id@) implies session_in(
                last,
                b,
            ) is None by {
                if listed(last, b) {
                    let p = position(last, b);
                    assert(last[p].1@ != session_id@);
                }
            }
        }
    }
}

// Laws

/// The loopback addresses are 127.0.0.0 to 127.255.255.255, and ::1. The
/// unspecified ones are 0.0.0.0 and ::.
pub proof fn law_special_addresses(ip: IpAddr, loopback: bool, unspecified: bool)
    requires
        call_ensures(IpAddr::is_loopback, (ip,), loopback),
        call_ensures(IpAddr::is_unspecified, (ip,), unspecified),
    ensures
        ip matches IpAddr::V4(n) ==> (loopback <==> 0x7f00_0000 <= n <= 0x7fff_ffff),
        ip matches IpAddr::V6(n) ==> (loopback <==> n == 1),
        ip matches IpAddr::V4(n) ==> (unspecified <==> n == 0),
        ip matches IpAddr::V6(n) ==> (unspecified <==> n == 0),
{
}

/// A socket address has the IP address and the port that it is made of.
pub proof fn law_socket_addresses(ip: IpAddr, port: u16, r: SocketAddr)
    requires
        call_ensures(SocketAddr::new, (ip, port), r),
    ensures
        ip matches IpAddr::V4(n) ==> r == (SocketAddr::V4 { ip: n, port }),
        ip matches IpAddr::V6(n) ==> (r matches SocketAddr::V6 { ip, port: p, .. } && ip == n && p
            == port),
{
}

/// An address that was given to a session belongs to it, and the other addresses
/// belong to whom they belonged.
pub proof fn law_addresses_are_found(
    book: &mut AddressBook,
    a: SocketAddr,
    session_id: String,
    b: SocketAddr,
    before: Option<&str>,
    after: Option<&str>,
)
    requires
        call_ensures(AddressBook::get, (old(book), b), before),
        call_ensures(AddressBook::insert, (book, a, session_id), ()),
        call_ensures(AddressBook::get, (final(book), b), after),
    ensures
        a == b ==> (after matches Some(s) && s@ == session_id@),
        a != b ==> (after is Some <==> before is Some),
        a != b ==> (after matches Some(s) ==> s@ == before->Some_0@),
{
}

/// No address belongs to a session that was forgotten, and the addresses of
/// other sessions stay theirs.
pub proof fn law_forgotten_sessions_have_no_addresses(
    book: &mut AddressBook,
    session_id: &str,
    b: SocketAddr,
    before: Option<&str>,
    after: Option<&str>,
)
    requires
        call_ensures(AddressBook::get, (old(book), b), before),
        call_ensures(AddressBook::forget, (book, session_id), ()),
        call_ensures(AddressBook::get, (final(book), b), after),
    ensures
        after matches Some(s) ==> s@ != session_id@,
        before matches Some(s) ==> s@ != session_id@ ==> (after matches Some(t) && t@ == s@),
        before is None ==> after is None,
{
}

} // verus!
