//! The list of remote servers, kept in ascending order of name with no name
//! twice.

use vstd::prelude::*;
use crate::error::StoreError;
use crate::store::WellFormed;
use crate::names::{
    lemma_precedes_irreflexive, lemma_precedes_total, lemma_precedes_transitive, name_precedes,
    precedes,
};

verus! {

/// A parsed network address: the 32 bits of an IPv4 address or the 128 bits
/// of an IPv6 address, most significant octet first.
#[derive(Clone, Copy, Debug, PartialEq, Eq, PartialOrd, Ord, Hash, Structural)]
pub enum IpAddress {
    V4(u32),
    V6(u128),
}

/// A remote server: its name, which identifies it, and its address.
#[derive(Debug, Clone, PartialEq, Eq, PartialOrd, Ord)]
pub struct Server {
    pub name: String,
    pub ip: IpAddress,
}

/// What a server is to the contracts: its name as characters, and its address.
pub type Entry = (Seq<char>, IpAddress);

impl View for Server {
    type V = Entry;

    open spec fn view(&self) -> Entry {
        (self.name@, self.ip)
    }
}

impl Server {
    pub fn new(ip: IpAddress, name: String) -> (r: Server)
        ensures
            r@ == (name@, ip),
            r.name == name,
    {
        Server { ip, name }
    }
}

/// Names ascend strictly along `s`.
pub open spec fn sorted(s: Seq<Entry>) -> bool {
    forall|i: int, j: int| #![trigger s[i], s[j]] 0 <= i < j < s.len() ==> precedes(s[i].0, s[j].0)
}

/// Some entry of `s` bears `name`.
pub open spec fn holds(s: Seq<Entry>, name: Seq<char>) -> bool {
    exists|i: int| 0 <= i < s.len() && (#[trigger] s[i]).0 == name
}

/// The first index at or after `i` whose entry does not sort before `name`.
pub open spec fn position_from(s: Seq<Entry>, name: Seq<char>, i: int) -> int
    decreases s.len() - i,
{
    if 0 <= i < s.len() && precedes(s[i].0, name) {
        position_from(s, name, i + 1)
    } else {
        i
    }
}

/// Where `name` belongs in `s`: the index of the first entry that does not
/// sort before it, or the length of `s` if every entry does.
pub open spec fn position(s: Seq<Entry>, name: Seq<char>) -> int {
    position_from(s, name, 0)
}

/// `s` with a server of this name and address put in its place, or `s` itself
/// if it already holds the name.
pub open spec fn with_entry(s: Seq<Entry>, name: Seq<char>, ip: IpAddress) -> Seq<Entry> {
    if holds(s, name) {
        s
    } else {
        s.insert(position(s, name), (name, ip))
    }
}

/// `s` without the server of this name, or `s` itself if it holds none.
pub open spec fn without_entry(s: Seq<Entry>, name: Seq<char>) -> Seq<Entry> {
    if holds(s, name) {
        s.remove(position(s, name))
    } else {
        s
    }
}

/// `s` after the server called `old_name` was renamed and readdressed: it
/// leaves its place and the new entry is put where its name belongs. Nothing
/// changes if `s` holds no `old_name`.
pub open spec fn with_replaced(
    s: Seq<Entry>,
    old_name: Seq<char>,
    name: Seq<char>,
    ip: IpAddress,
) -> Seq<Entry> {
    if holds(s, old_name) {
        with_entry(without_entry(s, old_name), name, ip)
    } else {
        s
    }
}

proof fn lemma_position_from(s: Seq<Entry>, name: Seq<char>, i: int, p: int)
    requires
        0 <= i <= p <= s.len(),
        forall|j: int| 0 <= j < p ==> precedes((#[trigger] s[j]).0, name),
        p < s.len() ==> !precedes(s[p].0, name),
    ensures
        position_from(s, name, i) == p,
    decreases p - i,
{
    if i < p {
        lemma_position_from(s, name, i + 1, p);
    }
}

proof fn lemma_position_from_bounds(s: Seq<Entry>, name: Seq<char>, i: int)
    requires
        0 <= i <= s.len(),
    ensures
        i <= position_from(s, name, i) <= s.len(),
        forall|j: int| i <= j < position_from(s, name, i) ==> precedes((#[trigger] s[j]).0, name),
        position_from(s, name, i) < s.len() ==> !precedes(s[position_from(s, name, i)].0, name),
    decreases s.len() - i,
{
    if i < s.len() && precedes(s[i].0, name) {
        lemma_position_from_bounds(s, name, i + 1);
    }
}

/// In a sorted list the place of `name` splits it: every entry before the
/// place sorts before `name`, every entry from the place on does not, and
/// `name` is held exactly if the entry at its place bears it.
pub proof fn lemma_position(s: Seq<Entry>, name: Seq<char>)
    requires
        sorted(s),
    ensures
        0 <= position(s, name) <= s.len(),
        forall|j: int| 0 <= j < position(s, name) ==> precedes((#[trigger] s[j]).0, name),
        forall|j: int| position(s, name) <= j < s.len() ==> !precedes((#[trigger] s[j]).0, name),
        holds(s, name) <==> (position(s, name) < s.len() && s[position(s, name)].0 == name),
        !holds(s, name) ==> forall|j: int|
            position(s, name) <= j < s.len() ==> precedes(name, (#[trigger] s[j]).0),
{
    let p = position(s, name);
    lemma_position_from_bounds(s, name, 0);
    assert forall|j: int| p <= j < s.len() implies !precedes((#[trigger] s[j]).0, name) by {
        if p < j && precedes(s[j].0, name) {
            assert(precedes(s[p].0, s[j].0));
            lemma_precedes_transitive(s[p].0, s[j].0, name);
        }
    }
    if holds(s, name) {
        let k = choose|k: int| 0 <= k < s.len() && (#[trigger] s[k]).0 == name;
        lemma_precedes_irreflexive(name);
        if k > p {
            assert(precedes(s[p].0, s[k].0));
        }
        assert(k == p);
    }
    if !holds(s, name) {
        assert forall|j: int| p <= j < s.len() implies precedes(name, (#[trigger] s[j]).0) by {
            lemma_precedes_total(name, s[j].0);
        }
    }
}

/// A server put in its place leaves the list sorted.
pub proof fn lemma_with_entry_sorted(s: Seq<Entry>, name: Seq<char>, ip: IpAddress)
    requires
        sorted(s),
    ensures
        sorted(with_entry(s, name, ip)),
        holds(with_entry(s, name, ip), name),
{
    lemma_position(s, name);
    if !holds(s, name) {
        let p = position(s, name);
        let t = s.insert(p, (name, ip));
        assert(t[p].0 == name);
        assert forall|i: int, j: int| #![trigger t[i], t[j]] 0 <= i < j < t.len() implies precedes(
            t[i].0,
            t[j].0,
        ) by {
            if j < p {
                assert(t[i] == s[i] && t[j] == s[j]);
            } else if j == p {
                assert(t[i] == s[i]);
            } else if i < p {
                assert(t[i] == s[i] && t[j] == s[j - 1]);
                lemma_precedes_transitive(s[i].0, name, s[j - 1].0);
            } else if i == p {
                assert(t[j] == s[j - 1]);
            } else {
                assert(t[i] == s[i - 1] && t[j] == s[j - 1]);
            }
        }
    }
}

/// A server taken out leaves the list sorted, and its name is gone.
pub proof fn lemma_without_entry_sorted(s: Seq<Entry>, name: Seq<char>)
    requires
        sorted(s),
    ensures
        sorted(without_entry(s, name)),
        !holds(without_entry(s, name), name),
{
    lemma_position(s, name);
    if holds(s, name) {
        let p = position(s, name);
        let t = s.remove(p);
        assert forall|i: int| 0 <= i < t.len() implies t[i] == s[if i < p { i } else { i + 1 }] by {}
        assert forall|i: int, j: int| #![trigger t[i], t[j]] 0 <= i < j < t.len() implies precedes(
            t[i].0,
            t[j].0,
        ) by {
            let si = if i < p { i } else { i + 1 };
            let sj = if j < p { j } else { j + 1 };
            assert(t[i] == s[si] && t[j] == s[sj]);
        }
        lemma_precedes_irreflexive(name);
        assert forall|i: int| 0 <= i < t.len() implies (#[trigger] t[i]).0 != name by {
            let si = if i < p { i } else { i + 1 };
            assert(t[i] == s[si]);
            if si > p {
                assert(precedes(s[p].0, s[si].0));
            }
        }
    }
}

/// Adding changes nothing but the one server: the list afterwards holds what
/// it held before, and the new server if its name was not held.
pub proof fn lemma_with_entry_members(s: Seq<Entry>, name: Seq<char>, ip: IpAddress, e: Entry)
    ensures
        with_entry(s, name, ip).contains(e) <==> s.contains(e) || (!holds(s, name) && e == (
            name,
            ip,
        )),
{
    if !holds(s, name) {
        lemma_position_from_bounds(s, name, 0);
        let p = position(s, name);
        let t = s.insert(p, (name, ip));
        if t.contains(e) {
            let k = choose|k: int| 0 <= k < t.len() && t[k] == e;
            if k < p {
                assert(s[k] == e);
            } else if k > p {
                assert(s[k - 1] == e);
            }
        }
        if s.contains(e) {
            let k = choose|k: int| 0 <= k < s.len() && s[k] == e;
            if k < p {
                assert(t[k] == e);
            } else {
                assert(t[k + 1] == e);
            }
        }
        assert(t[p] == (name, ip));
    }
}

/// Removing changes nothing but the one server: the list afterwards holds
/// what it held before, except the server of that name.
pub proof fn lemma_without_entry_members(s: Seq<Entry>, name: Seq<char>, e: Entry)
    requires
        sorted(s),
    ensures
        without_entry(s, name).contains(e) <==> s.contains(e) && e.0 != name,
{
    lemma_position(s, name);
    if holds(s, name) {
        let p = position(s, name);
        let t = s.remove(p);
        if t.contains(e) {
            let k = choose|k: int| 0 <= k < t.len() && t[k] == e;
            let sk = if k < p { k } else { k + 1 };
            assert(s[sk] == e);
            lemma_sorted_names_distinct(s, sk, p);
        }
        if s.contains(e) && e.0 != name {
            let k = choose|k: int| 0 <= k < s.len() && s[k] == e;
            if k < p {
                assert(t[k] == e);
            } else {
                assert(t[k - 1] == e);
            }
        }
    } else {
        if s.contains(e) {
            let k = choose|k: int| 0 <= k < s.len() && s[k] == e;
            assert(s[k].0 != name);
        }
    }
}

/// A renamed server leaves the list sorted.
pub proof fn lemma_with_replaced_sorted(
    s: Seq<Entry>,
    old_name: Seq<char>,
    name: Seq<char>,
    ip: IpAddress,
)
    requires
        sorted(s),
    ensures
        sorted(with_replaced(s, old_name, name, ip)),
{
    lemma_without_entry_sorted(s, old_name);
    lemma_with_entry_sorted(without_entry(s, old_name), name, ip);
}

/// In a sorted list no two servers share a name.
pub proof fn lemma_sorted_names_distinct(s: Seq<Entry>, i: int, j: int)
    requires
        sorted(s),
        0 <= i < s.len(),
        0 <= j < s.len(),
        i != j,
    ensures
        s[i].0 != s[j].0,
{
    lemma_precedes_irreflexive(s[i].0);
    if i < j {
        assert(precedes(s[i].0, s[j].0));
    } else {
        assert(precedes(s[j].0, s[i].0));
    }
}

/// One change to the list of servers.
pub enum ServerChange {
    /// A server of this name and address is added.
    Add { name: Seq<char>, ip: IpAddress },
    /// The server called `old_name` is renamed and readdressed.
    Modify { old_name: Seq<char>, name: Seq<char>, ip: IpAddress },
    /// The server of this name is removed.
    Remove { name: Seq<char> },
}

/// `s` after one change.
pub open spec fn changed(s: Seq<Entry>, change: ServerChange) -> Seq<Entry> {
    match change {
        ServerChange::Add { name, ip } => with_entry(s, name, ip),
        ServerChange::Modify { old_name, name, ip } => with_replaced(s, old_name, name, ip),
        ServerChange::Remove { name } => without_entry(s, name),
    }
}

/// `s` after a run of changes, the first of them made first.
pub open spec fn changed_by_all(s: Seq<Entry>, changes: Seq<ServerChange>) -> Seq<Entry>
    decreases changes.len(),
{
    if changes.len() == 0 {
        s
    } else {
        changed(changed_by_all(s, changes.drop_last()), changes.last())
    }
}

/// Whatever run of additions, renamings and removals is made on a sorted
/// list, the list stays sorted by name and holds no name twice. The empty
/// list, with which a store starts, is sorted.
pub proof fn lemma_order_kept(s: Seq<Entry>, changes: Seq<ServerChange>)
    requires
        sorted(s),
    ensures
        sorted(Seq::<Entry>::empty()),
        sorted(changed_by_all(s, changes)),
        forall|i: int, j: int|
            #![trigger changed_by_all(s, changes)[i], changed_by_all(s, changes)[j]]
            0 <= i < changed_by_all(s, changes).len() && 0 <= j < changed_by_all(s, changes).len()
                && i != j ==> changed_by_all(s, changes)[i].0 != changed_by_all(s, changes)[j].0,
    decreases changes.len(),
{
    if changes.len() > 0 {
        let before = changed_by_all(s, changes.drop_last());
        lemma_order_kept(s, changes.drop_last());
        match changes.last() {
            ServerChange::Add { name, ip } => lemma_with_entry_sorted(before, name, ip),
            ServerChange::Modify { old_name, name, ip } => lemma_with_replaced_sorted(
                before,
                old_name,
                name,
                ip,
            ),
            ServerChange::Remove { name } => lemma_without_entry_sorted(before, name),
        }
    }
    let after = changed_by_all(s, changes);
    assert forall|i: int, j: int| #![trigger after[i], after[j]] 0 <= i < after.len() && 0 <= j
        < after.len() && i != j implies after[i].0 != after[j].0 by {
        lemma_sorted_names_distinct(after, i, j);
    }
}

/// The servers that the application knows.
#[derive(Debug)]
pub struct ServerDatabase {
    pub servers: Vec<Server>,
}

impl View for ServerDatabase {
    type V = Seq<Entry>;

    open spec fn view(&self) -> Seq<Entry> {
        Seq::new(self.servers@.len(), |i: int| self.servers@[i]@)
    }
}

impl Default for ServerDatabase {
    fn default() -> (r: ServerDatabase)
        ensures
            r@ == Seq::<Entry>::empty(),
            r.wf(),
    {
        let r = ServerDatabase { servers: Vec::new() };
        assert(r@ =~= Seq::<Entry>::empty());
        r
    }
}

impl WellFormed for ServerDatabase {
    /// Names ascend strictly, so none occurs twice.
    open spec fn wf(&self) -> bool {
        sorted(self@)
    }

    fn is_well_formed(&self) -> (r: bool) {
        let n: usize = self.servers.len();
        if n < 2 {
            return true;
        }
        let mut k: usize = 1;
        while k < n
            invariant
                n == self.servers@.len(),
                1 <= k <= n,
                sorted(self@.subrange(0, k as int)),
            decreases n - k,
        {
            if !name_precedes(self.servers[k - 1].name.as_str(), self.servers[k].name.as_str()) {
                proof {
                    assert(!precedes(self@[k - 1].0, self@[k as int].0));
                }
                return false;
            }
            proof {
                let s = self@.subrange(0, k as int);
                let t = self@.subrange(0, k + 1);
                assert forall|i: int, j: int| #![trigger t[i], t[j]] 0 <= i < j < t.len() implies precedes(
                    t[i].0,
                    t[j].0,
                ) by {
                    if j < k {
                        assert(t[i] == s[i] && t[j] == s[j]);
                    } else if i < k - 1 {
                        assert(t[i] == s[i] && t[k - 1] == s[k - 1]);
                        lemma_precedes_transitive(t[i].0, t[k - 1].0, t[j].0);
                    }
                }
            }
            k = k + 1;
        }
        proof {
            assert(self@.subrange(0, n as int) =~= self@);
        }
        true
    }
}

impl ServerDatabase {
    /// Looks `name` up by halving: `Ok` with the index of the server that
    /// bears it, or `Err` with the index at which it would be put.
    pub fn find(&self, name: &str) -> (r: Result<usize, usize>)
        requires
            self.wf(),
        ensures
            match r {
                Ok(p) => holds(self@, name@) && p == position(self@, name@) && p < self@.len()
                    && self@[p as int].0 == name@,
                Err(p) => !holds(self@, name@) && p == position(self@, name@) && p <= self@.len(),
            },
    {
        let mut lo: usize = 0;
        let mut hi: usize = self.servers.len();
        while lo < hi
            invariant
                lo <= hi <= self.servers@.len(),
                self.wf(),
                forall|j: int| 0 <= j < lo ==> precedes((#[trigger] self@[j]).0, name@),
                forall|j: int| hi <= j < self@.len() ==> !precedes((#[trigger] self@[j]).0, name@),
            decreases hi - lo,
        {
            let mid: usize = lo + (hi - lo) / 2;
            if name_precedes(self.servers[mid].name.as_str(), name) {
                proof {
                    assert forall|j: int| 0 <= j < mid + 1 implies precedes(
                        (#[trigger] self@[j]).0,
                        name@,
                    ) by {
                        if j < mid {
                            assert(precedes(self@[j].0, self@[mid as int].0));
                            lemma_precedes_transitive(self@[j].0, self@[mid as int].0, name@);
                        }
                    }
                }
                lo = mid + 1;
            } else {
                proof {
                    assert forall|j: int| mid <= j < self@.len() implies !precedes(
                        (#[trigger] self@[j]).0,
                        name@,
                    ) by {
                        if mid < j && precedes(self@[j].0, name@) {
                            assert(precedes(self@[mid as int].0, self@[j].0));
                            lemma_precedes_transitive(self@[mid as int].0, self@[j].0, name@);
                        }
                    }
                }
                hi = mid;
            }
        }
        proof {
            lemma_position_from(self@, name@, 0, lo as int);
            lemma_position(self@, name@);
            if lo < self@.len() {
                lemma_precedes_total(name@, self@[lo as int].0);
            }
        }
        if lo < self.servers.len() && !name_precedes(name, self.servers[lo].name.as_str()) {
            Ok(lo)
        } else {
            Err(lo)
        }
    }

    /// Adds a server, given its name and what parsing its address gave.
    /// Without an address nothing is added and the parse failure is reported.
    /// A name that the list already holds is left as it is, with its address.
    pub fn add_server(&mut self, name: String, ip: Option<IpAddress>) -> (r: Result<(), StoreError>)
        requires
            old(self).wf(),
        ensures
            final(self).wf(),
            match ip {
                None => r == Err::<(), StoreError>(StoreError::AddressParseError) && final(self)@
                    == old(self)@,
                Some(a) => r == Ok::<(), StoreError>(()) && final(self)@ == with_entry(
                    old(self)@,
                    name@,
                    a,
                ),
            },
    {
        let address = match ip {
            Some(a) => a,
            None => {
                return Err(StoreError::AddressParseError);
            },
        };
        proof {
            lemma_with_entry_sorted(self@, name@, address);
        }
        match self.find(name.as_str()) {
            Ok(_) => {},
            Err(pos) => {
                let ghost before = self@;
                let ghost entry = (name@, address);
                self.servers.insert(pos, Server::new(address, name));
                assert(self@ =~= before.insert(pos as int, entry));
            },
        }
        Ok(())
    }

    /// Renames and readdresses the server called `old_name`, given what
    /// parsing the new address gave. The server leaves its place and is put
    /// where its new name belongs; if another server already bears the new
    /// name, that one stays and the renamed one is dropped. Without an address
    /// the parse failure is reported; an `old_name` that the list does not
    /// hold changes nothing and is no error.
    pub fn modify_server(&mut self, old_name: String, name: String, ip: Option<IpAddress>) -> (r:
        Result<(), StoreError>)
        requires
            old(self).wf(),
        ensures
            final(self).wf(),
            match ip {
                None => r == Err::<(), StoreError>(StoreError::AddressParseError) && final(self)@
                    == old(self)@,
                Some(a) => r == Ok::<(), StoreError>(()) && final(self)@ == with_replaced(
                    old(self)@,
                    old_name@,
                    name@,
                    a,
                ),
            },
    {
        if ip.is_none() {
            return Err(StoreError::AddressParseError);
        }
        match self.find(old_name.as_str()) {
            Ok(pos) => {
                let ghost before = self@;
                proof {
                    lemma_without_entry_sorted(before, old_name@);
                }
                self.servers.remove(pos);
                assert(self@ =~= before.remove(pos as int));
                self.add_server(name, ip)
            },
            Err(_) => Ok(()),
        }
    }

    /// Removes the server called `name`; a name that the list does not hold
    /// changes nothing.
    pub fn remove_server(&mut self, name: String)
        requires
            old(self).wf(),
        ensures
            final(self).wf(),
            final(self)@ == without_entry(old(self)@, name@),
    {
        proof {
            lemma_without_entry_sorted(self@, name@);
        }
        match self.find(name.as_str()) {
            Ok(pos) => {
                let ghost before = self@;
                self.servers.remove(pos);
                assert(self@ =~= before.remove(pos as int));
            },
            Err(_) => {},
        }
    }
}

} // verus!
