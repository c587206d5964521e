use vstd::prelude::*;
use crate::text::{lowercase_of, str_equals, to_lowercase};

verus! {

/// Whether a channel holds at most a fixed number of elements.
#[derive(Clone, Copy, Debug, PartialEq, Eq, Structural)]
pub enum ChannelBaseOn {
    Unbounded,
    Bounded,
}

/// A channel mode that the configuration may not name.
#[derive(Debug)]
pub enum ChannelModeError {
    /// The mode, lowercased, is neither `bounded` nor `unbounded`.
    Unsupported(String),
}

/// The mode that an already lowercased configuration value names.
pub open spec fn mode_of(s: Seq<char>) -> Option<ChannelBaseOn> {
    if s == "bounded"@ {
        Some(ChannelBaseOn::Bounded)
    } else if s == "unbounded"@ {
        Some(ChannelBaseOn::Unbounded)
    } else {
        None
    }
}

impl ChannelBaseOn {
    /// Reads a mode from a configuration value that is already lowercase.
    pub fn from_lowercase(mode_str: &str) -> (r: Result<ChannelBaseOn, ChannelModeError>)
        ensures
            match mode_of(mode_str@) {
                Some(m) => r == Ok::<ChannelBaseOn, ChannelModeError>(m),
                None => r matches Err(ChannelModeError::Unsupported(s)) && s@ == mode_str@,
            },
    {
        proof {
            reveal_strlit("bounded");
            reveal_strlit("unbounded");
        }
        if str_equals(mode_str, "bounded") {
            Ok(ChannelBaseOn::Bounded)
        } else if str_equals(mode_str, "unbounded") {
            Ok(ChannelBaseOn::Unbounded)
        } else {
            Err(ChannelModeError::Unsupported(mode_str.to_owned()))
        }
    }

    /// Reads a mode from a configuration value, in any case.
    pub fn try_from(mode_str: &str) -> (r: Result<ChannelBaseOn, ChannelModeError>)
        ensures
            match mode_of(lowercase_of(mode_str@)) {
                Some(m) => r == Ok::<ChannelBaseOn, ChannelModeError>(m),
                None => r matches Err(ChannelModeError::Unsupported(s)) && s@ == lowercase_of(
                    mode_str@,
                ),
            },
    {
        let lowered = to_lowercase(mode_str);
        ChannelBaseOn::from_lowercase(lowered.as_str())
    }

    /// The mode's display name.
    pub fn to_string(&self) -> (r: String)
        ensures
            *self == ChannelBaseOn::Bounded ==> r@ == "Bounded"@,
            *self == ChannelBaseOn::Unbounded ==> r@ == "Unbounded"@,
    {
        match self {
            ChannelBaseOn::Bounded => "Bounded".to_owned(),
            ChannelBaseOn::Unbounded => "Unbounded".to_owned(),
        }
    }
}

#[verifier::external_type_specification]
#[verifier::external_body]
#[verifier::reject_recursive_types(T)]
pub struct ExSender<T>(crossbeam::channel::Sender<T>);

#[verifier::external_type_specification]
#[verifier::external_body]
#[verifier::reject_recursive_types(T)]
pub struct ExReceiver<T>(crossbeam::channel::Receiver<T>);

/// The largest capacity a bounded channel can be created with.
pub const MAX_CHANNEL_CAPACITY: usize = usize::MAX / 4;

/// Relies on `crossbeam::channel::unbounded`: a connected pair of endpoints.
#[verifier::external_body]
fn unbounded_pair<T>() -> (r: (crossbeam::channel::Sender<T>, crossbeam::channel::Receiver<T>)) {
    crossbeam::channel::unbounded()
}

/// Relies on `crossbeam::channel::bounded`, which panics only when the
/// capacity is too large to round up to a power of two.
#[verifier::external_body]
fn bounded_pair<T>(cap: usize) -> (r: (crossbeam::channel::Sender<T>, crossbeam::channel::Receiver<T>))
    requires
        cap <= MAX_CHANNEL_CAPACITY,
{
    crossbeam::channel::bounded(cap)
}

/// Why a non-blocking send did not go through; the element comes back.
#[derive(Debug)]
pub enum TrySendError<T> {
    Full(T),
    Disconnected(T),
}

/// Why a non-blocking receive returned nothing.
#[derive(Clone, Copy, Debug, PartialEq, Eq, Structural)]
pub enum TryRecvError {
    Empty,
    Disconnected,
}

pub open spec fn returned<T>(e: TrySendError<T>) -> T {
    match e {
        TrySendError::Full(t) => t,
        TrySendError::Disconnected(t) => t,
    }
}

/// Relies on `crossbeam::channel::Sender::try_send`, which hands a refused
/// message back unchanged.
#[verifier::external_body]
fn raw_try_send<T>(s: &crossbeam::channel::Sender<T>, t: T) -> (r: Result<(), TrySendError<T>>)
    ensures
        r matches Err(e) ==> returned(e) == t,
{
    match s.try_send(t) {
        Ok(()) => Ok(()),
        Err(crossbeam::channel::TrySendError::Full(v)) => Err(TrySendError::Full(v)),
        Err(crossbeam::channel::TrySendError::Disconnected(v)) => Err(TrySendError::Disconnected(v)),
    }
}

/// Relies on `crossbeam::channel::Sender::send`, which blocks while a
/// bounded channel is full and hands the message back once every receiver
/// is gone.
#[verifier::external_body]
fn raw_send<T>(s: &crossbeam::channel::Sender<T>, t: T) -> (r: Result<(), T>)
    ensures
        r matches Err(v) ==> v == t,
{
    s.send(t).map_err(|e| e.0)
}

/// Relies on `crossbeam::channel::Receiver::try_recv`.
#[verifier::external_body]
fn raw_try_recv<T>(r: &crossbeam::channel::Receiver<T>) -> (res: Result<T, TryRecvError>) {
    match r.try_recv() {
        Ok(t) => Ok(t),
        Err(crossbeam::channel::TryRecvError::Empty) => Err(TryRecvError::Empty),
        Err(crossbeam::channel::TryRecvError::Disconnected) => Err(TryRecvError::Disconnected),
    }
}

/// Relies on `crossbeam::channel::Receiver::recv`, which blocks until an
/// element arrives or every sender is gone.
#[verifier::external_body]
fn raw_recv<T>(r: &crossbeam::channel::Receiver<T>) -> (res: Option<T>) {
    r.recv().ok()
}

/// Relies on `crossbeam::channel::Sender::clone`: another handle on the same
/// channel.
#[verifier::external_body]
fn raw_clone_sender<T>(s: &crossbeam::channel::Sender<T>) -> (r: crossbeam::channel::Sender<T>) {
    s.clone()
}

/// Relies on `crossbeam::channel::Receiver::clone`: another handle on the
/// same channel.
#[verifier::external_body]
fn raw_clone_receiver<T>(r: &crossbeam::channel::Receiver<T>) -> (res: crossbeam::channel::Receiver<T>) {
    r.clone()
}

/// Relies on `crossbeam::channel::Receiver::len`: the number of elements
/// waiting in the channel at the moment of the call.
#[verifier::external_body]
fn raw_len<T>(r: &crossbeam::channel::Receiver<T>) -> (n: usize) {
    r.len()
}

/// A name and value attached to a channel's metrics.
#[derive(Debug)]
pub struct Tag {
    pub key: String,
    pub value: String,
}

/// The add-one of a saturating counter.
pub open spec fn bump(n: u64) -> u64 {
    if n < u64::MAX {
        (n + 1) as u64
    } else {
        n
    }
}

fn bump_counter(n: u64) -> (r: u64)
    ensures
        r == bump(n),
{
    if n < u64::MAX {
        n + 1
    } else {
        n
    }
}

/// The sending end of a named channel, with its count of accepted elements.
#[verifier::reject_recursive_types(T)]
pub struct ChannelSender<T> {
    name: String,
    tags: Vec<Tag>,
    base_on: ChannelBaseOn,
    cap: usize,
    accepted: u64,
    sender: crossbeam::channel::Sender<T>,
}

/// The receiving end of a named channel, with its count of drained elements.
#[verifier::reject_recursive_types(T)]
pub struct ChannelReceiver<T> {
    name: String,
    tags: Vec<Tag>,
    base_on: ChannelBaseOn,
    cap: usize,
    drained: u64,
    receiver: crossbeam::channel::Receiver<T>,
}

impl<T> ChannelSender<T> {
    pub closed spec fn name_view(&self) -> Seq<char> {
        self.name@
    }

    pub closed spec fn tag_count(&self) -> nat {
        self.tags@.len()
    }

    pub closed spec fn mode(&self) -> ChannelBaseOn {
        self.base_on
    }

    pub closed spec fn capacity_view(&self) -> usize {
        self.cap
    }

    pub closed spec fn accepted_view(&self) -> u64 {
        self.accepted
    }

    pub fn name(&self) -> (r: &str)
        ensures
            r@ == self.name_view(),
    {
        self.name.as_str()
    }

    pub fn base_on(&self) -> (r: ChannelBaseOn)
        ensures
            r == self.mode(),
    {
        self.base_on
    }

    pub fn capacity(&self) -> (r: usize)
        ensures
            r == self.capacity_view(),
    {
        self.cap
    }

    /// How many elements this end has handed to the channel.
    pub fn accepted(&self) -> (r: u64)
        ensures
            r == self.accepted_view(),
    {
        self.accepted
    }

    /// Hands `t` to the channel without blocking; a refused element comes
    /// back in the error.
    pub fn try_send(&mut self, t: T) -> (r: Result<(), TrySendError<T>>)
        ensures
            r matches Err(e) ==> returned(e) == t,
            final(self).accepted_view() == if r is Ok {
                bump(old(self).accepted_view())
            } else {
                old(self).accepted_view()
            },
            final(self).name_view() == old(self).name_view(),
            final(self).mode() == old(self).mode(),
            final(self).capacity_view() == old(self).capacity_view(),
    {
        let r = raw_try_send(&self.sender, t);
        if r.is_ok() {
            self.accepted = bump_counter(self.accepted);
        }
        r
    }

    /// Hands `t` to the channel, waiting while a bounded channel is full;
    /// once every receiver is gone the element comes back.
    pub fn send(&mut self, t: T) -> (r: Result<(), T>)
        ensures
            r matches Err(v) ==> v == t,
            final(self).accepted_view() == if r is Ok {
                bump(old(self).accepted_view())
            } else {
                old(self).accepted_view()
            },
            final(self).name_view() == old(self).name_view(),
            final(self).mode() == old(self).mode(),
            final(self).capacity_view() == old(self).capacity_view(),
    {
        let r = raw_send(&self.sender, t);
        if r.is_ok() {
            self.accepted = bump_counter(self.accepted);
        }
        r
    }

    /// Another sending end on the same channel, with its own count.
    pub fn duplicate(&self) -> (r: ChannelSender<T>)
        ensures
            r.name_view() == self.name_view(),
            r.mode() == self.mode(),
            r.capacity_view() == self.capacity_view(),
            r.accepted_view() == 0,
    {
        ChannelSender {
            name: self.name.clone(),
            tags: Vec::new(),
            base_on: self.base_on,
            cap: self.cap,
            accepted: 0,
            sender: raw_clone_sender(&self.sender),
        }
    }
}

impl<T> ChannelReceiver<T> {
    pub closed spec fn name_view(&self) -> Seq<char> {
        self.name@
    }

    pub closed spec fn drained_view(&self) -> u64 {
        self.drained
    }

    pub closed spec fn mode(&self) -> ChannelBaseOn {
        self.base_on
    }

    pub closed spec fn capacity_view(&self) -> usize {
        self.cap
    }

    pub fn name(&self) -> (r: &str)
        ensures
            r@ == self.name_view(),
    {
        self.name.as_str()
    }

    /// How many elements this end has taken from the channel.
    pub fn drained(&self) -> (r: u64)
        ensures
            r == self.drained_view(),
    {
        self.drained
    }

    /// The number of elements waiting in the channel now: the channel's
    /// size gauge. On a bounded channel the reading is capped at the
    /// capacity, so the bound stated here holds by construction; it is not
    /// a fact proved of the channel. The channel itself never reports more
    /// than its capacity, so the cap does not change the reading.
    pub fn len(&self) -> (r: usize)
        ensures
            self.mode() == ChannelBaseOn::Bounded ==> r <= self.capacity_view(),
    {
        let n = raw_len(&self.receiver);
        match self.base_on {
            ChannelBaseOn::Bounded => if n > self.cap {
                self.cap
            } else {
                n
            },
            ChannelBaseOn::Unbounded => n,
        }
    }

    /// Takes an element if one is waiting.
    pub fn try_recv(&mut self) -> (r: Result<T, TryRecvError>)
        ensures
            final(self).drained_view() == if r is Ok {
                bump(old(self).drained_view())
            } else {
                old(self).drained_view()
            },
            final(self).name_view() == old(self).name_view(),
            final(self).mode() == old(self).mode(),
            final(self).capacity_view() == old(self).capacity_view(),
    {
        let r = raw_try_recv(&self.receiver);
        if r.is_ok() {
            self.drained = bump_counter(self.drained);
        }
        r
    }

    /// Waits for an element; `None` once the channel is empty and every
    /// sender is gone.
    pub fn recv(&mut self) -> (r: Option<T>)
        ensures
            final(self).drained_view() == if r is Some {
                bump(old(self).drained_view())
            } else {
                old(self).drained_view()
            },
            final(self).name_view() == old(self).name_view(),
            final(self).mode() == old(self).mode(),
            final(self).capacity_view() == old(self).capacity_view(),
    {
        let r = raw_recv(&self.receiver);
        if r.is_some() {
            self.drained = bump_counter(self.drained);
        }
        r
    }

    /// Another receiving end on the same channel, with its own count.
    pub fn duplicate(&self) -> (r: ChannelReceiver<T>)
        ensures
            r.name_view() == self.name_view(),
            r.mode() == self.mode(),
            r.capacity_view() == self.capacity_view(),
            r.drained_view() == 0,
    {
        ChannelReceiver {
            name: self.name.clone(),
            tags: Vec::new(),
            base_on: self.base_on,
            cap: self.cap,
            drained: 0,
            receiver: raw_clone_receiver(&self.receiver),
        }
    }
}

/// Creates a named unbounded channel.
pub fn named_channel<T>(name: &str, tags: Vec<Tag>, cap: usize) -> (r: (ChannelSender<T>, ChannelReceiver<T>))
    ensures
        r.0.name_view() == name@,
        r.1.name_view() == name@,
        r.0.mode() == ChannelBaseOn::Unbounded,
        r.1.mode() == ChannelBaseOn::Unbounded,
        r.0.capacity_view() == cap,
        r.0.accepted_view() == 0,
        r.1.drained_view() == 0,
{
    named_channel_with_base(name, tags, cap, ChannelBaseOn::Unbounded)
}

/// Creates a named channel: bounded to `cap` elements or unbounded, as
/// `base_on` says, with both ends' counters at zero.
pub fn named_channel_with_base<T>(
    name: &str,
    tags: Vec<Tag>,
    cap: usize,
    base_on: ChannelBaseOn,
) -> (r: (ChannelSender<T>, ChannelReceiver<T>))
    requires
        base_on == ChannelBaseOn::Bounded ==> cap <= MAX_CHANNEL_CAPACITY,
    ensures
        r.0.name_view() == name@,
        r.1.name_view() == name@,
        r.0.mode() == base_on,
        r.0.capacity_view() == cap,
        r.0.accepted_view() == 0,
        r.1.drained_view() == 0,
        r.0.tag_count() == tags@.len(),
        r.1.mode() == base_on,
        r.1.capacity_view() == cap,
{
    let (sender, receiver) = match base_on {
        ChannelBaseOn::Bounded => bounded_pair(cap),
        ChannelBaseOn::Unbounded => unbounded_pair(),
    };
    let mut receiver_tags: Vec<Tag> = Vec::new();
    let mut i: usize = 0;
    while i < tags.len()
        invariant
            i <= tags@.len(),
        decreases tags@.len() - i,
    {
        receiver_tags.push(Tag { key: tags[i].key.clone(), value: tags[i].value.clone() });
        i = i + 1;
    }
    (
        ChannelSender { name: name.to_owned(), tags, base_on, cap, accepted: 0, sender },
        ChannelReceiver { name: name.to_owned(), tags: receiver_tags, base_on, cap, drained: 0, receiver },
    )
}

/// Relies on `crossbeam::channel::Select::ready`: blocks until one of the
/// receivers has an element waiting or is disconnected, and returns its
/// position, in the order the receivers were added.
#[verifier::external_body]
pub(crate) fn select_ready<T>(rs: &Vec<ChannelReceiver<T>>) -> (r: usize)
    requires
        rs@.len() > 0,
    ensures
        r < rs@.len(),
{
    let mut sel = crossbeam::channel::Select::new();
    for r in rs.iter() {
        sel.recv(&r.receiver);
    }
    sel.ready()
}

} // verus!
