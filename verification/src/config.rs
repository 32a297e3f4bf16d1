//! The links that are already taken under one prefix.

use vstd::prelude::*;
use crate::error::NamingError;
use crate::linkfile::{
    link_file_link, read_link_file, HWADDR_KEY, LINK_SECTION, MATCH_SECTION, NAME_KEY,
};
use crate::name::{
    decimal, is_link_name, link_index, link_name, link_name_valid, make_link_name, name_index,
};
use crate::util::{hwaddr_normalize, is_canonical, is_hwaddr, normalized};

verus! {

/// Directory in which the link files of the host are kept.
pub const NET_SETUP_LINK_CONF_DIR: &'static str = "/etc/systemd/network/";

/// What the file name of every link file of this scheme begins with.
pub const LINK_FILE_PREFIX: &'static str = "71-net-ifnames-prefix-";

/// What the file name of every link file ends with.
pub const LINK_FILE_SUFFIX: &'static str = ".link";

/// One link: the name that a hardware address was given.
#[derive(Debug, Clone)]
pub struct PrefixedLink {
    pub name: String,
    pub hwaddr: String,
}

/// A link as a pair of texts.
pub ghost struct LinkView {
    pub name: Seq<char>,
    pub hwaddr: Seq<char>,
}

impl View for PrefixedLink {
    type V = LinkView;

    open spec fn view(&self) -> LinkView {
        LinkView { name: self.name@, hwaddr: self.hwaddr@ }
    }
}

/// Where the link file for `name` is kept.
pub open spec fn link_file_path_of(name: Seq<char>) -> Seq<char> {
    NET_SETUP_LINK_CONF_DIR@ + LINK_FILE_PREFIX@ + name + LINK_FILE_SUFFIX@
}

/// What the link file of a link holds: the device is matched by its
/// hardware address and given the name.
pub open spec fn link_file_text(link: LinkView) -> Seq<char> {
    "["@ + MATCH_SECTION@ + "]\n"@ + HWADDR_KEY@ + "="@ + link.hwaddr + "\n\n["@ + LINK_SECTION@
        + "]\n"@ + NAME_KEY@ + "="@ + link.name + "\n"@
}

impl PrefixedLink {
    /// A link is well formed when its name is a link name and its address
    /// is in canonical form.
    pub open spec fn wf(&self) -> bool {
        is_link_name(self.name@) && is_canonical(self.hwaddr@)
    }

    /// Makes the link that gives `name` to `hwaddr`.  The name must be a link
    /// name and the address a written hardware address, which is kept in
    /// canonical form.
    pub fn new_with_hwaddr(name: &str, hwaddr: &str) -> (r: Result<PrefixedLink, NamingError>)
        ensures
            match r {
                Ok(link) => {
                    &&& is_link_name(name@)
                    &&& is_hwaddr(hwaddr@)
                    &&& link@ == (LinkView { name: name@, hwaddr: normalized(hwaddr@) })
                    &&& link.wf()
                },
                Err(e) => if !is_link_name(name@) {
                    e == NamingError::InvalidName
                } else {
                    !is_hwaddr(hwaddr@) && e == NamingError::InvalidHwaddr
                },
            },
    {
        if !link_name_valid(name) {
            return Err(NamingError::InvalidName);
        }
        match hwaddr_normalize(hwaddr) {
            Ok(addr) => {
                proof {
                    crate::util::normalized_is_canonical(hwaddr@);
                }
                Ok(PrefixedLink { name: name.to_owned(), hwaddr: addr })
            },
            Err(e) => Err(e),
        }
    }

    /// Where the link file of this link is kept.  The place depends on the
    /// name alone.
    pub fn link_file_path(&self) -> (path: String)
        ensures
            path@ == link_file_path_of(self.name@),
    {
        let mut path = NET_SETUP_LINK_CONF_DIR.to_owned();
        path.append(LINK_FILE_PREFIX);
        path.append(self.name.as_str());
        path.append(LINK_FILE_SUFFIX);
        path
    }

    /// What the link file of this link holds.
    pub fn link_file_content(&self) -> (content: String)
        ensures
            content@ == link_file_text(self@),
    {
        let mut content = "[".to_owned();
        content.append(MATCH_SECTION);
        content.append("]\n");
        content.append(HWADDR_KEY);
        content.append("=");
        content.append(self.hwaddr.as_str());
        content.append("\n\n[");
        content.append(LINK_SECTION);
        content.append("]\n");
        content.append(NAME_KEY);
        content.append("=");
        content.append(self.name.as_str());
        content.append("\n");
        content
    }
}

/// Two names that differ are kept in two different files.
pub proof fn link_file_path_tells_name(a: Seq<char>, b: Seq<char>)
    requires
        link_file_path_of(a) == link_file_path_of(b),
    ensures
        a == b,
{
    let head = NET_SETUP_LINK_CONF_DIR@ + LINK_FILE_PREFIX@;
    let tail = LINK_FILE_SUFFIX@;
    let pa = link_file_path_of(a);
    let pb = link_file_path_of(b);
    assert(pa.len() == head.len() + a.len() + tail.len());
    assert(pb.len() == head.len() + b.len() + tail.len());
    assert forall|i: int| 0 <= i < a.len() implies a[i] == b[i] by {
        assert(pa[head.len() + i] == a[i]);
        assert(pb[head.len() + i] == b[i]);
    }
    assert(a =~= b);
}

/// The links under one prefix, as texts.
pub ghost struct ConfigView {
    pub prefix: Seq<char>,
    pub links: Seq<LinkView>,
}

impl ConfigView {
    /// `name` and `hwaddr` make a link under the prefix: the name is the
    /// prefix followed by a number, and the address is a written address.
    pub open spec fn admits(self, name: Seq<char>, hwaddr: Seq<char>) -> bool {
        name_index(self.prefix, name) is Some && is_hwaddr(hwaddr)
    }

    /// Every link carries a number behind the prefix and an address in
    /// canonical form.
    pub open spec fn sound(self) -> bool {
        forall|i: int|
            0 <= i < self.links.len() ==> {
                &&& name_index(self.prefix, (#[trigger] self.links[i]).name) is Some
                &&& is_canonical(self.links[i].hwaddr)
            }
    }

    /// Some link carries the number `n`.
    pub open spec fn taken(self, n: nat) -> bool {
        exists|i: int|
            0 <= i < self.links.len() && name_index(self.prefix, (#[trigger] self.links[i]).name)
                == Some(n)
    }

    /// Some link has the name `name`.
    pub open spec fn names(self, name: Seq<char>) -> bool {
        exists|i: int| 0 <= i < self.links.len() && (#[trigger] self.links[i]).name == name
    }

    /// Some link is for the address `hwaddr`.
    pub open spec fn holds(self, hwaddr: Seq<char>) -> bool {
        exists|i: int| 0 <= i < self.links.len() && (#[trigger] self.links[i]).hwaddr == hwaddr
    }

    /// `link` is the first link for the address `hwaddr`.
    pub open spec fn first_for(self, hwaddr: Seq<char>, link: LinkView) -> bool {
        exists|i: int|
            {
                &&& 0 <= i < self.links.len()
                &&& #[trigger] self.links[i] == link
                &&& link.hwaddr == hwaddr
                &&& forall|j: int| 0 <= j < i ==> (#[trigger] self.links[j]).hwaddr != hwaddr
            }
    }

    /// `n` is free, and every smaller number is taken.
    pub open spec fn lowest_free(self, n: nat) -> bool {
        !self.taken(n) && forall|m: nat| m < n ==> self.taken(m)
    }

    /// Every number that fits in 64 bits is taken.
    pub open spec fn full(self) -> bool {
        forall|n: nat| n <= u64::MAX ==> self.taken(n)
    }

    /// The lowest number that no link carries.
    pub open spec fn next_index(self) -> nat {
        choose|n: nat| self.lowest_free(n)
    }

    /// No two links share a name, and no two share an address.
    pub open spec fn distinct(self) -> bool {
        forall|i: int, j: int|
            0 <= i < j < self.links.len() ==> {
                &&& (#[trigger] self.links[i]).name != (#[trigger] self.links[j]).name
                &&& self.links[i].hwaddr != self.links[j].hwaddr
            }
    }

    /// The links with `link` behind them.
    pub open spec fn with(self, link: LinkView) -> ConfigView {
        ConfigView { prefix: self.prefix, links: self.links.push(link) }
    }

    /// The set after the link that gives `name` to `hwaddr` was offered to
    /// it: a link that belongs under the prefix is taken in, with its
    /// address in canonical form, and any other is passed over.
    pub open spec fn offered(self, name: Seq<char>, hwaddr: Seq<char>) -> ConfigView {
        if self.admits(name, hwaddr) {
            self.with(LinkView { name, hwaddr: normalized(hwaddr) })
        } else {
            self
        }
    }

    /// The set after the link file `text` was offered to it.  A text that is
    /// no link file changes nothing.
    pub open spec fn offered_file(self, text: Seq<char>) -> ConfigView {
        match link_file_link(text) {
            Some(link) => self.offered(link.name, link.hwaddr),
            None => self,
        }
    }

    /// The set after the link files `texts` were offered to it in turn.
    pub open spec fn filled(self, texts: Seq<Seq<char>>) -> ConfigView
        decreases texts.len(),
    {
        if texts.len() == 0 {
            self
        } else {
            self.filled(texts.drop_last()).offered_file(texts.last())
        }
    }

    /// The set without its links.
    pub open spec fn emptied(self) -> ConfigView {
        ConfigView { prefix: self.prefix, links: Seq::empty() }
    }
}

/// The texts of `fragments`, in order.
pub open spec fn texts_of(fragments: Seq<String>) -> Seq<Seq<char>> {
    Seq::new(fragments.len(), |i: int| fragments[i]@)
}

/// A link together with the number that its name carries.
struct Entry {
    link: PrefixedLink,
    index: u64,
}

/// The links that are already taken under one prefix, as they were found
/// when the set was last filled.
pub struct NetSetupLinkConfig {
    ifname_prefix: String,
    entries: Vec<Entry>,
}

impl View for NetSetupLinkConfig {
    type V = ConfigView;

    closed spec fn view(&self) -> ConfigView {
        ConfigView {
            prefix: self.ifname_prefix@,
            links: Seq::new(self.entries@.len(), |i: int| self.entries@[i].link@),
        }
    }
}

impl NetSetupLinkConfig {
    /// The set is well formed: every link in it belongs under the prefix,
    /// and the number kept with each link is the one that its name carries.
    pub closed spec fn wf(&self) -> bool {
        &&& self@.sound()
        &&& forall|i: int|
            0 <= i < self.entries@.len() ==> name_index(
                self.ifname_prefix@,
                (#[trigger] self.entries@[i]).link.name@,
            ) == Some(self.entries@[i].index as nat)
    }

    /// In a well-formed set every link belongs under the prefix.
    pub proof fn wf_is_sound(&self)
        requires
            self.wf(),
        ensures
            self@.sound(),
    {
    }

    /// The empty set of links under `prefix`.
    pub fn new_with_prefix(prefix: &str) -> (config: NetSetupLinkConfig)
        ensures
            config.wf(),
            config@.prefix == prefix@,
            config@.links == Seq::<LinkView>::empty(),
    {
        let config = NetSetupLinkConfig { ifname_prefix: prefix.to_owned(), entries: Vec::new() };
        assert(config@.links =~= Seq::<LinkView>::empty());
        config
    }

    /// The prefix of the set.
    pub fn prefix(&self) -> (prefix: &str)
        ensures
            prefix@ == self@.prefix,
    {
        self.ifname_prefix.as_str()
    }

    /// The number of links in the set.
    pub fn len(&self) -> (n: usize)
        ensures
            n == self@.links.len(),
    {
        self.entries.len()
    }

    /// Takes the link that gives `name` to `hwaddr` into the set if it belongs
    /// under the prefix, with its address in canonical form, and tells
    /// whether it did.  A link that does not belong is passed over.
    pub fn record(&mut self, name: &str, hwaddr: &str) -> (kept: bool)
        requires
            old(self).wf(),
        ensures
            final(self).wf(),
            kept == old(self)@.admits(name@, hwaddr@),
            final(self)@ == old(self)@.offered(name@, hwaddr@),
    {
        let index = match link_index(self.ifname_prefix.as_str(), name) {
            Some(index) => index,
            None => {
                return false;
            },
        };
        let addr = match hwaddr_normalize(hwaddr) {
            Ok(addr) => addr,
            Err(_) => {
                return false;
            },
        };
        proof {
            crate::util::normalized_is_canonical(hwaddr@);
        }
        let link = PrefixedLink { name: name.to_owned(), hwaddr: addr };
        self.entries.push(Entry { link, index });
        assert(self@.links =~= old(self)@.links.push(
            LinkView { name: name@, hwaddr: normalized(hwaddr@) },
        ));
        true
    }

    /// Fills the set anew from the link files of the host, given as their
    /// texts: what the set held before is dropped, and every file is
    /// offered to it in turn.  A text that is no link file, or whose link
    /// does not belong under the prefix, is passed over.
    pub fn load(&mut self, fragments: &Vec<String>)
        ensures
            final(self).wf(),
            final(self)@ == old(self)@.emptied().filled(texts_of(fragments@)),
    {
        self.entries = Vec::new();
        assert(self@ =~= old(self)@.emptied()) by {
            assert(self@.links =~= Seq::<LinkView>::empty());
        }
        let ghost texts = texts_of(fragments@);
        let mut i: usize = 0;
        while i < fragments.len()
            invariant
                i <= fragments.len(),
                texts == texts_of(fragments@),
                self.wf(),
                self@ == old(self)@.emptied().filled(texts.take(i as int)),
            decreases fragments.len() - i,
        {
            proof {
                assert(texts.take(i + 1).drop_last() =~= texts.take(i as int));
                assert(texts.take(i + 1).last() == fragments@[i as int]@);
            }
            match read_link_file(fragments[i].as_str()) {
                Some((name, hwaddr)) => {
                    self.record(name.as_str(), hwaddr.as_str());
                },
                None => {},
            }
            i += 1;
        }
        assert(texts.take(fragments.len() as int) =~= texts);
    }

    /// The link that `hwaddr` already has, if it has one.  The address is
    /// compared in canonical form; a text that is no address has no link.
    pub fn for_hwaddr(&self, hwaddr: &str) -> (found: Option<&PrefixedLink>)
        ensures
            match found {
                Some(link) => is_hwaddr(hwaddr@) && self@.first_for(normalized(hwaddr@), link@),
                None => !is_hwaddr(hwaddr@) || !self@.holds(normalized(hwaddr@)),
            },
    {
        let addr = match hwaddr_normalize(hwaddr) {
            Ok(addr) => addr,
            Err(_) => {
                return None;
            },
        };
        let mut i: usize = 0;
        while i < self.entries.len()
            invariant
                i <= self.entries.len(),
                is_hwaddr(hwaddr@),
                addr@ == normalized(hwaddr@),
                forall|j: int| 0 <= j < i ==> (#[trigger] self@.links[j]).hwaddr != addr@,
            decreases self.entries.len() - i,
        {
            if self.entries[i].link.hwaddr == addr {
                assert(self@.links[i as int] == self.entries[i as int].link@);
                return Some(&self.entries[i].link);
            }
            i += 1;
        }
        None
    }

    /// Tells whether some link carries the number `n`.
    fn has_index(&self, n: u64) -> (yes: bool)
        requires
            self.wf(),
        ensures
            yes == self@.taken(n as nat),
    {
        let mut i: usize = 0;
        while i < self.entries.len()
            invariant
                i <= self.entries.len(),
                self.wf(),
                forall|j: int|
                    0 <= j < i ==> name_index(self@.prefix, (#[trigger] self@.links[j]).name)
                        != Some(n as nat),
            decreases self.entries.len() - i,
        {
            if self.entries[i].index == n {
                assert(name_index(self@.prefix, self@.links[i as int].name) == Some(n as nat));
                return true;
            }
            assert(name_index(self@.prefix, self@.links[i as int].name) == Some(
                self.entries@[i as int].index as nat,
            ));
            i += 1;
        }
        false
    }

    /// The name for the next device: the prefix followed by the lowest number
    /// that no link carries yet.  There is none only when every number that
    /// fits in 64 bits is taken.
    pub fn next_link_name(&self) -> (r: Result<String, NamingError>)
        requires
            self.wf(),
        ensures
            match r {
                Ok(name) => {
                    &&& self@.next_index() <= u64::MAX
                    &&& self@.lowest_free(self@.next_index())
                    &&& name@ == link_name(self@.prefix, self@.next_index())
                },
                Err(e) => e == NamingError::NoFreeName && self@.full(),
            },
    {
        let mut n: u64 = 0;
        loop
            invariant
                self.wf(),
                forall|m: nat| m < n ==> self@.taken(m),
            decreases u64::MAX - n,
        {
            if !self.has_index(n) {
                proof {
                    assert(self@.lowest_free(n as nat));
                    lowest_free_is_one(self@, n as nat, self@.next_index());
                }
                return Ok(make_link_name(self.ifname_prefix.as_str(), n));
            }
            if n == u64::MAX {
                return Err(NamingError::NoFreeName);
            }
            n += 1;
        }
    }
}

/// There is at most one lowest free number.
pub proof fn lowest_free_is_one(c: ConfigView, a: nat, b: nat)
    requires
        c.lowest_free(a),
        c.lowest_free(b),
    ensures
        a == b,
{
    if a < b {
        assert(c.taken(a));
    }
    if b < a {
        assert(c.taken(b));
    }
}

/// The name with the lowest free number is the name of no link in the set.
pub proof fn next_name_is_new(c: ConfigView, n: nat)
    requires
        c.sound(),
        c.lowest_free(n),
        n <= u64::MAX,
    ensures
        !c.names(link_name(c.prefix, n)),
{
    crate::name::link_name_carries_index(c.prefix, n);
    if c.names(link_name(c.prefix, n)) {
        let i = choose|i: int|
            0 <= i < c.links.len() && (#[trigger] c.links[i]).name == link_name(c.prefix, n);
        assert(name_index(c.prefix, c.links[i].name) == Some(n));
        assert(c.taken(n));
    }
}

/// Two devices that are served one after the other get two different names:
/// once the first name is in the set, the next name is another one.
pub proof fn next_names_differ(c: ConfigView, first: nat, hwaddr: Seq<char>, second: nat)
    requires
        c.lowest_free(first),
        first <= u64::MAX,
        c.with(LinkView { name: link_name(c.prefix, first), hwaddr }).lowest_free(second),
    ensures
        link_name(c.prefix, first) != link_name(c.prefix, second),
{
    let link = LinkView { name: link_name(c.prefix, first), hwaddr };
    let d = c.with(link);
    crate::name::link_name_carries_index(c.prefix, first);
    assert(d.links[c.links.len() as int] == link);
    assert(d.taken(first));
    assert(first != second);
    crate::name::decimal_reads_back(first);
    crate::name::decimal_reads_back(second);
    if link_name(c.prefix, first) == link_name(c.prefix, second) {
        assert(decimal(first) =~= link_name(c.prefix, first).skip(c.prefix.len() as int));
        assert(decimal(second) =~= link_name(c.prefix, second).skip(c.prefix.len() as int));
    }
}

/// Giving the next name to an address that has no link yet keeps the set
/// sound and its links apart: no name and no address comes twice.
pub proof fn new_link_keeps_apart(c: ConfigView, n: nat, hwaddr: Seq<char>)
    requires
        c.sound(),
        c.distinct(),
        c.lowest_free(n),
        n <= u64::MAX,
        is_canonical(hwaddr),
        !c.holds(hwaddr),
    ensures
        c.with(LinkView { name: link_name(c.prefix, n), hwaddr }).sound(),
        c.with(LinkView { name: link_name(c.prefix, n), hwaddr }).distinct(),
{
    let link = LinkView { name: link_name(c.prefix, n), hwaddr };
    let d = c.with(link);
    crate::name::link_name_carries_index(c.prefix, n);
    next_name_is_new(c, n);
    assert forall|i: int, j: int| 0 <= i < j < d.links.len() implies {
        &&& (#[trigger] d.links[i]).name != (#[trigger] d.links[j]).name
        &&& d.links[i].hwaddr != d.links[j].hwaddr
    } by {
        if j < c.links.len() {
            assert(d.links[i] == c.links[i]);
            assert(d.links[j] == c.links[j]);
        } else {
            assert(d.links[i] == c.links[i]);
            assert(d.links[j] == link);
        }
    }
    assert forall|i: int| 0 <= i < d.links.len() implies {
        &&& name_index(d.prefix, (#[trigger] d.links[i]).name) is Some
        &&& is_canonical(d.links[i].hwaddr)
    } by {
        if i < c.links.len() {
            assert(d.links[i] == c.links[i]);
        }
    }
}

/// An address that was taken into the set has a link from then on.
pub proof fn recorded_is_held(c: ConfigView, link: LinkView)
    ensures
        c.with(link).holds(link.hwaddr),
        forall|hwaddr: Seq<char>| c.holds(hwaddr) ==> c.with(link).holds(hwaddr),
{
    let d = c.with(link);
    assert(d.links[c.links.len() as int] == link);
    assert forall|hwaddr: Seq<char>| c.holds(hwaddr) implies d.holds(hwaddr) by {
        let i = choose|i: int| 0 <= i < c.links.len() && (#[trigger] c.links[i]).hwaddr == hwaddr;
        assert(d.links[i] == c.links[i]);
    }
}

/// Where some number is free, there is a lowest free number, and it is no
/// greater.
pub proof fn some_free_has_lowest(c: ConfigView, n: nat)
    requires
        !c.taken(n),
    ensures
        c.lowest_free(c.next_index()),
        c.next_index() <= n,
    decreases n,
{
    if forall|m: nat| m < n ==> c.taken(m) {
        assert(c.lowest_free(n));
    } else {
        let m = choose|m: nat| m < n && !c.taken(m);
        some_free_has_lowest(c, m);
    }
    if c.next_index() > n {
        assert(c.taken(n));
    }
}

/// The links cover no more numbers than there are links.
proof fn taken_numbers_are_few(c: ConfigView, numbers: Set<int>)
    requires
        numbers.finite(),
        forall|n: int| numbers.contains(n) ==> n >= 0 && c.taken(n as nat),
    ensures
        numbers.len() <= c.links.len(),
    decreases c.links.len(),
{
    if c.links.len() == 0 {
        assert(numbers =~= Set::<int>::empty());
    } else {
        let last = c.links.len() - 1;
        let rest = ConfigView { prefix: c.prefix, links: c.links.drop_last() };
        let others = match name_index(c.prefix, c.links[last].name) {
            Some(x) => numbers.remove(x as int),
            None => numbers,
        };
        assert forall|n: int| others.contains(n) implies n >= 0 && rest.taken(n as nat) by {
            assert(numbers.contains(n));
            let i = choose|i: int|
                0 <= i < c.links.len() && name_index(c.prefix, (#[trigger] c.links[i]).name)
                    == Some(n as nat);
            assert(i != last);
            assert(rest.links[i] == c.links[i]);
        }
        taken_numbers_are_few(rest, others);
    }
}

/// Among the numbers from zero up to the number of links, one is free.
pub proof fn some_number_is_free(c: ConfigView)
    ensures
        c.lowest_free(c.next_index()),
        c.next_index() <= c.links.len(),
{
    let k = c.links.len() as int;
    let numbers = vstd::set_lib::set_int_range(0, k + 1);
    vstd::set_lib::lemma_int_range(0, k + 1);
    if forall|n: int| numbers.contains(n) ==> c.taken(n as nat) {
        taken_numbers_are_few(c, numbers);
    }
    let n = choose|n: int| numbers.contains(n) && !c.taken(n as nat);
    some_free_has_lowest(c, n as nat);
}

impl NetSetupLinkConfig {
    /// A set of links always leaves a number free that fits in 64 bits, so
    /// there is always a name for the next device.
    pub proof fn never_full(&self)
        ensures
            !self@.full(),
            self@.lowest_free(self@.next_index()),
            self@.next_index() <= u64::MAX,
    {
        some_number_is_free(self@);
        assert(self@.links.len() == self.entries.len());
    }
}

} // verus!
