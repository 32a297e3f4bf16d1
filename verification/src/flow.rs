//! The order of one run.
//!
//! A run serves one device.  It reads the kernel command line, takes the
//! host-wide lock, reads the link files, asks for the device's hardware
//! address and, if the device has no name yet, writes a link file for it.
//! The caller does each of these and reports how it went; what to do next
//! is decided here.  The lock is taken before any link file is read, and a
//! run that ends while it holds the lock gives it back.

use vstd::prelude::*;
use crate::cmdline::{get_prefix_from_cmdline, prefix_of_cmdline};
use crate::config::{
    link_file_path_of, link_file_text, texts_of, ConfigView, LinkView, NetSetupLinkConfig,
    PrefixedLink,
};
use crate::error::NamingError;
use crate::name::{is_link_name, link_name, prefix_allowed, reserved};
use crate::util::{is_hwaddr, normalized};

verus! {

/// Why a run ends.
#[derive(Debug, Clone, Copy, PartialEq, Eq, Structural)]
pub enum Reason {
    /// The command line asks for no prefix.
    NoPrefix,
    /// The prefix is one that the kernel or another naming tool hands out.
    PrefixReserved,
    /// The prefix on the command line is turned down.
    PrefixRefused(NamingError),
    /// The command line could not be read.
    CmdlineUnread,
    /// The lock could not be taken.
    LockFailed,
    /// The link files could not be read.
    LoadFailed,
    /// The device's hardware address could not be found out.
    HwaddrUnknown,
    /// What the device reports is no hardware address.
    HwaddrRefused,
    /// The device has a name already.
    AlreadyNamed,
    /// No name is left for the device.
    NoName(NamingError),
    /// The link for the device could not be made.
    BadLink(NamingError),
    /// The link file could not be written.
    WriteFailed,
    /// The link file was written.
    Written,
    /// The report does not answer what was asked for.
    OutOfTurn,
}

impl Reason {
    /// The run did what it was meant to do, which may be nothing.
    pub open spec fn is_success(self) -> bool {
        self is NoPrefix || self is PrefixReserved || self is AlreadyNamed || self is Written
    }

    /// The exit status that goes with the reason: zero for success.
    pub fn code(&self) -> (code: i32)
        ensures
            code == (if self.is_success() { 0i32 } else { 1i32 }),
    {
        match self {
            Reason::NoPrefix | Reason::PrefixReserved | Reason::AlreadyNamed | Reason::Written => 0,
            _ => 1,
        }
    }
}

/// What the caller is to do next.
pub enum Action {
    /// Take the host-wide lock, waiting for it as long as it takes.
    Lock,
    /// Read every link file of the host.
    ReadLinkFiles,
    /// Ask for the hardware address of the device.
    ReadHwaddr,
    /// Write `content` to the file at `path`.
    WriteLinkFile { path: String, content: String },
    /// End the run, after giving the lock back if `unlock` says so.
    Exit { reason: Reason, unlock: bool },
}

/// What the caller reports.
pub enum Event {
    /// The kernel command line.
    Cmdline(String),
    /// The lock is held.
    Locked,
    /// The texts of the link files of the host.
    LinkFiles(Vec<String>),
    /// The hardware address as the device reports it.
    Hwaddr(String),
    /// The link file is written.
    Written,
    /// What was asked for could not be done.
    Failed,
}

/// How far a run has come.
pub enum State {
    /// Nothing is done yet; the command line is awaited.
    Start,
    /// The lock was asked for.
    Locking { prefix: String },
    /// The lock is held; the link files are awaited.
    Loading { prefix: String },
    /// The lock is held; the device's hardware address is awaited.
    Probing { config: NetSetupLinkConfig },
    /// The lock is held; the link file is being written.
    Writing,
    /// The run is over.
    Done,
}

impl State {
    /// The set of links that the run carries, if any, is well formed.
    pub open spec fn wf(self) -> bool {
        match self {
            State::Probing { config } => config.wf(),
            _ => true,
        }
    }

    /// The run holds the lock.
    pub open spec fn holds_lock(self) -> bool {
        self is Loading || self is Probing || self is Writing
    }

    /// Tells whether the run holds the lock.
    pub fn lock_held(&self) -> (held: bool)
        ensures
            held == self.holds_lock(),
    {
        match self {
            State::Loading { .. } | State::Probing { .. } | State::Writing => true,
            _ => false,
        }
    }
}

/// The run ends for `reason`, and the lock is given back if it is held.
pub open spec fn leaves(state: State, reason: Reason, next: State, action: Action) -> bool {
    next is Done && action == (Action::Exit { reason, unlock: state.holds_lock() })
}

/// What follows the command line.
pub open spec fn after_cmdline(state: State, cmdline: Seq<char>, next: State, action: Action) -> bool {
    match prefix_of_cmdline(cmdline) {
        Err(NamingError::KernelPrefix) => leaves(state, Reason::PrefixReserved, next, action),
        Err(e) => leaves(state, Reason::PrefixRefused(e), next, action),
        Ok(prefix) => if prefix.len() == 0 {
            leaves(state, Reason::NoPrefix, next, action)
        } else if reserved(prefix) {
            leaves(state, Reason::PrefixReserved, next, action)
        } else {
            &&& action is Lock
            &&& next matches State::Locking { prefix: kept }
            &&& kept@ == prefix
        },
    }
}

/// What follows the device's report of its hardware address.
pub open spec fn after_hwaddr(
    state: State,
    config: ConfigView,
    raw: Seq<char>,
    next: State,
    action: Action,
) -> bool {
    let name = link_name(config.prefix, config.next_index());
    if !is_hwaddr(raw) {
        leaves(state, Reason::HwaddrRefused, next, action)
    } else if config.holds(normalized(raw)) {
        leaves(state, Reason::AlreadyNamed, next, action)
    } else if config.full() {
        leaves(state, Reason::NoName(NamingError::NoFreeName), next, action)
    } else if !is_link_name(name) {
        leaves(state, Reason::BadLink(NamingError::InvalidName), next, action)
    } else {
        &&& next is Writing
        &&& action matches Action::WriteLinkFile { path, content }
        &&& path@ == link_file_path_of(name)
        &&& content@ == link_file_text(LinkView { name, hwaddr: normalized(raw) })
    }
}

/// From `state`, on `event`, the run goes on to `next` and the caller is
/// asked for `action`.
pub open spec fn steps(state: State, event: Event, next: State, action: Action) -> bool {
    match (state, event) {
        (State::Start, Event::Cmdline(cmdline)) => after_cmdline(state, cmdline@, next, action),
        (State::Start, Event::Failed) => leaves(state, Reason::CmdlineUnread, next, action),
        (State::Locking { prefix }, Event::Locked) => {
            &&& action is ReadLinkFiles
            &&& next matches State::Loading { prefix: kept }
            &&& kept@ == prefix@
        },
        (State::Locking { .. }, Event::Failed) => leaves(state, Reason::LockFailed, next, action),
        (State::Loading { prefix }, Event::LinkFiles(fragments)) => {
            &&& action is ReadHwaddr
            &&& next matches State::Probing { config }
            &&& config@ == (ConfigView { prefix: prefix@, links: Seq::empty() }).filled(
                texts_of(fragments@),
            )
        },
        (State::Loading { .. }, Event::Failed) => leaves(state, Reason::LoadFailed, next, action),
        (State::Probing { config }, Event::Hwaddr(raw)) => after_hwaddr(
            state,
            config@,
            raw@,
            next,
            action,
        ),
        (State::Probing { .. }, Event::Failed) => leaves(
            state,
            Reason::HwaddrUnknown,
            next,
            action,
        ),
        (State::Writing, Event::Written) => leaves(state, Reason::Written, next, action),
        (State::Writing, Event::Failed) => leaves(state, Reason::WriteFailed, next, action),
        _ => leaves(state, Reason::OutOfTurn, next, action),
    }
}

fn leave(held: bool, reason: Reason) -> (r: (State, Action))
    ensures
        r.0 is Done,
        r.1 == (Action::Exit { reason, unlock: held }),
{
    (State::Done, Action::Exit { reason, unlock: held })
}

fn on_cmdline(cmdline: &str) -> (r: (State, Action))
    ensures
        after_cmdline(State::Start, cmdline@, r.0, r.1),
{
    match get_prefix_from_cmdline(cmdline) {
        Err(NamingError::KernelPrefix) => leave(false, Reason::PrefixReserved),
        Err(e) => leave(false, Reason::PrefixRefused(e)),
        Ok(prefix) => {
            if prefix.as_str().is_empty() {
                leave(false, Reason::NoPrefix)
            } else if !prefix_allowed(prefix.as_str()) {
                leave(false, Reason::PrefixReserved)
            } else {
                (State::Locking { prefix }, Action::Lock)
            }
        },
    }
}

fn on_hwaddr(config: &NetSetupLinkConfig, raw: &str) -> (r: (State, Action))
    requires
        config.wf(),
    ensures
        after_hwaddr(State::Probing { config: *config }, config@, raw@, r.0, r.1),
{
    if !crate::util::hwaddr_valid(raw) {
        return leave(true, Reason::HwaddrRefused);
    }
    if config.for_hwaddr(raw).is_some() {
        return leave(true, Reason::AlreadyNamed);
    }
    let name = match config.next_link_name() {
        Ok(name) => name,
        Err(e) => {
            return leave(true, Reason::NoName(e));
        },
    };
    match PrefixedLink::new_with_hwaddr(name.as_str(), raw) {
        Ok(link) => (
            State::Writing,
            Action::WriteLinkFile { path: link.link_file_path(), content: link.link_file_content() },
        ),
        Err(e) => leave(true, Reason::BadLink(e)),
    }
}

/// Takes the run one step on: from `state`, on what the caller reports,
/// to the next state and to what the caller is to do next.
pub fn step(state: State, event: Event) -> (r: (State, Action))
    requires
        state.wf(),
    ensures
        r.0.wf(),
        steps(state, event, r.0, r.1),
{
    let held = state.lock_held();
    match (state, event) {
        (State::Start, Event::Cmdline(cmdline)) => on_cmdline(cmdline.as_str()),
        (State::Start, Event::Failed) => leave(held, Reason::CmdlineUnread),
        (State::Locking { prefix }, Event::Locked) => (
            State::Loading { prefix },
            Action::ReadLinkFiles,
        ),
        (State::Locking { .. }, Event::Failed) => leave(held, Reason::LockFailed),
        (State::Loading { prefix }, Event::LinkFiles(fragments)) => {
            let mut config = NetSetupLinkConfig::new_with_prefix(prefix.as_str());
            config.load(&fragments);
            (State::Probing { config }, Action::ReadHwaddr)
        },
        (State::Loading { .. }, Event::Failed) => leave(held, Reason::LoadFailed),
        (State::Probing { config }, Event::Hwaddr(raw)) => on_hwaddr(&config, raw.as_str()),
        (State::Probing { .. }, Event::Failed) => leave(held, Reason::HwaddrUnknown),
        (State::Writing, Event::Written) => leave(held, Reason::Written),
        (State::Writing, Event::Failed) => leave(held, Reason::WriteFailed),
        _ => leave(held, Reason::OutOfTurn),
    }
}

/// A run that ends gives the lock back exactly when it holds it, and
/// nothing follows the end.
pub proof fn end_gives_lock_back(state: State, event: Event, next: State, action: Action)
    requires
        steps(state, event, next, action),
        action is Exit,
    ensures
        next is Done,
        action->unlock == state.holds_lock(),
{
}

/// The lock comes first.  It is asked for only at the start; it is held
/// only from the moment the caller reports it, and from then on until the
/// run ends; and link files are read, the device is asked and a link file
/// is written only while it is held.
pub proof fn lock_comes_first(state: State, event: Event, next: State, action: Action)
    requires
        steps(state, event, next, action),
    ensures
        action is Lock ==> state is Start && next is Locking,
        next.holds_lock() ==> state.holds_lock() || (state is Locking && event is Locked),
        state.holds_lock() ==> next.holds_lock() || action is Exit,
        action is ReadLinkFiles || action is ReadHwaddr || action is WriteLinkFile
            ==> next.holds_lock(),
        next is Done <==> action is Exit,
{
}

/// A reserved prefix ends the run at once, with success: the lock is not
/// asked for and no link file is read.
pub proof fn reserved_prefix_ends_run(cmdline: String, next: State, action: Action)
    requires
        steps(State::Start, Event::Cmdline(cmdline), next, action),
        match prefix_of_cmdline(cmdline@) {
            Ok(prefix) => reserved(prefix),
            Err(e) => e == NamingError::KernelPrefix,
        },
    ensures
        next is Done,
        action == (Action::Exit { reason: Reason::PrefixReserved, unlock: false }),
        Reason::PrefixReserved.is_success(),
{
    if prefix_of_cmdline(cmdline@) is Ok {
        let prefix = prefix_of_cmdline(cmdline@)->Ok_0;
        assert(prefix.len() != 0);
    }
}

/// A device that has a link already gets no second one: the run ends with
/// success and writes nothing.
pub proof fn named_device_writes_nothing(
    config: NetSetupLinkConfig,
    raw: String,
    next: State,
    action: Action,
)
    requires
        steps(State::Probing { config }, Event::Hwaddr(raw), next, action),
        is_hwaddr(raw@),
        config@.holds(normalized(raw@)),
    ensures
        next is Done,
        action == (Action::Exit { reason: Reason::AlreadyNamed, unlock: true }),
        Reason::AlreadyNamed.is_success(),
{
}

/// The link file that a run writes gives the device the lowest free name,
/// a name that no link of the set has, and is kept where that name says.
pub proof fn written_name_is_new(
    config: NetSetupLinkConfig,
    raw: String,
    next: State,
    action: Action,
)
    requires
        config.wf(),
        steps(State::Probing { config }, Event::Hwaddr(raw), next, action),
        action is WriteLinkFile,
    ensures
        config@.lowest_free(config@.next_index()),
        !config@.holds(normalized(raw@)),
        !config@.names(link_name(config@.prefix, config@.next_index())),
        action->path@ == link_file_path_of(link_name(config@.prefix, config@.next_index())),
{
    config.wf_is_sound();
    let c = config@;
    assert(!c.full());
    let n = choose|n: nat| n <= u64::MAX && !c.taken(n);
    crate::config::some_free_has_lowest(c, n);
    crate::config::next_name_is_new(c, c.next_index());
}

} // verus!
