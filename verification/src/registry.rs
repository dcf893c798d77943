//! The registry of the Python callbacks attached to digital inputs.
//!
//! A callback is known by a key (the identity of the Python function) and
//! carries the function itself. The I/O library calls back at most one
//! function per input, so the registry decides when that input-level
//! callback has to be attached and released: it is attached while the
//! channel has an entry here.
use vstd::prelude::*;

use std::collections::HashMap;

use crate::py_error::{PyErrorSpec, PyExceptionKind};

verus! {

broadcast use vstd::std_specs::hash::group_hash_axioms;

/// A registered callback: its identity and the function to call.
pub struct Callback<F> {
    pub key: u64,
    pub func: F,
}

/// The signal edges on which the I/O library calls the input-level
/// callback.
#[derive(PartialEq, Eq, Structural, Debug, Clone, Copy)]
pub enum InputTrigger {
    /// No edge: the callback is never called.
    NoEdge,
    RisingEdge,
    FallingEdge,
    BothEdge,
}

/// What has to happen to register a callback.
#[derive(PartialEq, Eq, Structural, Debug, Clone, Copy)]
pub enum RegisterAction {
    /// The input has no callback yet: attach the input-level callback,
    /// to be called on the given edges, then store the callback.
    AttachInput(InputTrigger),
    /// The input-level callback is attached already: store the callback.
    Store,
}

/// What has to happen after a callback was removed.
#[derive(PartialEq, Eq, Structural, Debug, Clone, Copy)]
pub enum UnregisterAction {
    /// The last callback of the input is gone: release the input-level
    /// callback, then the channel's entry.
    DetachInput,
    /// Other callbacks of the input remain.
    Done,
}

/// Requests that the registry refuses.
#[derive(PartialEq, Eq, Structural, Debug, Clone, Copy)]
pub enum RegistryError {
    /// The object to register cannot be called.
    NotCallable,
    /// No callback is registered for the channel.
    ChannelNotRegistered,
    /// The callback is not registered for the channel.
    CallbackNotRegistered,
}

impl RegistryError {
    /// The message that the error is raised with.
    pub fn message(&self) -> (msg: &'static str)
        ensures
            msg@ == registry_error_message(*self),
    {
        match self {
            RegistryError::NotCallable => "Callback must be callable",
            RegistryError::ChannelNotRegistered => "Channel not registered",
            RegistryError::CallbackNotRegistered => "Provided callback was not registered",
        }
    }
}

impl RegistryError {
    /// The Python exception a refused request is raised as: a
    /// `ValueError` with the error's message.
    pub fn to_py_error(&self) -> (res: PyErrorSpec)
        ensures
            res.kind == PyExceptionKind::ValueError,
            res.message@ == registry_error_message(*self),
    {
        PyErrorSpec { kind: PyExceptionKind::ValueError, message: self.message().to_owned() }
    }
}

/// The message of each registry error.
pub open spec fn registry_error_message(e: RegistryError) -> Seq<char> {
    match e {
        RegistryError::NotCallable => "Callback must be callable"@,
        RegistryError::ChannelNotRegistered => "Channel not registered"@,
        RegistryError::CallbackNotRegistered => "Provided callback was not registered"@,
    }
}

/// The keys of a sequence of callbacks.
pub open spec fn keys_of<F>(s: Seq<Callback<F>>) -> Seq<u64> {
    s.map_values(|c: Callback<F>| c.key)
}

/// The keys registered for a channel, empty when it has no entry.
pub open spec fn keys_at(m: Map<usize, Seq<u64>>, channel: usize) -> Seq<u64> {
    if m.contains_key(channel) {
        m[channel]
    } else {
        Seq::empty()
    }
}

/// The registrations after storing `key` for `channel`: a key that is
/// registered for the channel already changes nothing, a new one is
/// appended.
pub open spec fn after_add(m: Map<usize, Seq<u64>>, channel: usize, key: u64) -> Map<
    usize,
    Seq<u64>,
> {
    if keys_at(m, channel).contains(key) {
        m
    } else {
        m.insert(channel, keys_at(m, channel).push(key))
    }
}

/// The registrations after removing `key`, registered for `channel`.
pub open spec fn after_remove(m: Map<usize, Seq<u64>>, channel: usize, key: u64) -> Map<
    usize,
    Seq<u64>,
> {
    m.insert(channel, m[channel].remove(m[channel].index_of(key)))
}

/// The registrations after the entry of `channel` was released, which
/// happens only when no callback is left in it.
pub open spec fn after_release(m: Map<usize, Seq<u64>>, channel: usize) -> Map<usize, Seq<u64>> {
    if m.contains_key(channel) && m[channel].len() == 0 {
        m.remove(channel)
    } else {
        m
    }
}

/// No key occurs twice for one channel.
pub open spec fn keys_unique(m: Map<usize, Seq<u64>>) -> bool {
    forall|c: usize| #[trigger] m.contains_key(c) ==> m[c].no_duplicates()
}

/// The callbacks registered per input channel, in registration order.
pub struct CallbackRegistry<F> {
    channels: HashMap<usize, Vec<Callback<F>>>,
}

/// The callbacks held per channel by a map of callback lists.
pub closed spec fn entries_of<F>(m: Map<usize, Vec<Callback<F>>>) -> Map<usize, Seq<Callback<F>>> {
    m.map_values(|v: Vec<Callback<F>>| v@)
}

/// The keys held per channel by a map of callback lists.
pub open spec fn keys_view<F>(m: Map<usize, Vec<Callback<F>>>) -> Map<usize, Seq<u64>> {
    entries_of(m).map_values(|s: Seq<Callback<F>>| keys_of(s))
}

impl<F> View for CallbackRegistry<F> {
    type V = Map<usize, Seq<u64>>;

    /// The keys registered per channel, in registration order.
    open spec fn view(&self) -> Map<usize, Seq<u64>> {
        self.entries().map_values(|s: Seq<Callback<F>>| keys_of(s))
    }
}

impl<F> CallbackRegistry<F> {
    /// The callbacks registered per channel, in registration order.
    pub closed spec fn entries(&self) -> Map<usize, Seq<Callback<F>>> {
        entries_of(self.channels@)
    }

    /// No key occurs twice for one channel.
    #[verifier::type_invariant]
    spec fn keys_unique_inv(self) -> bool {
        keys_unique(keys_view(self.channels@))
    }

    /// The registry's invariant: no key occurs twice for one channel.
    pub open spec fn wf(&self) -> bool {
        keys_unique(self@)
    }

    /// An empty registry.
    pub fn new() -> (r: Self)
        ensures
            r.wf(),
            r.entries() == Map::<usize, Seq<Callback<F>>>::empty(),
            r@ == Map::<usize, Seq<u64>>::empty(),
    {
        let channels: HashMap<usize, Vec<Callback<F>>> = HashMap::new();
        assert(entries_of(channels@) =~= Map::<usize, Seq<Callback<F>>>::empty());
        assert(keys_view(channels@) =~= Map::<usize, Seq<u64>>::empty());
        let r = CallbackRegistry { channels };
        assert(r@ =~= Map::<usize, Seq<u64>>::empty());
        r
    }

    /// Takes the callback lists out, leaving an empty map behind.
    fn take_channels(&mut self) -> (channels: HashMap<usize, Vec<Callback<F>>>)
        ensures
            channels@ == old(self).channels@,
            keys_unique(keys_view(channels@)),
    {
        proof {
            use_type_invariant(&*self);
        }
        let mut channels: HashMap<usize, Vec<Callback<F>>> = HashMap::new();
        assert(keys_view(channels@) =~= Map::<usize, Seq<u64>>::empty());
        std::mem::swap(&mut channels, &mut self.channels);
        channels
    }

    /// Whether a callback may be registered for `channel`, and what has
    /// to happen for it: the input-level callback is attached exactly
    /// when the channel has no entry yet.
    pub fn plan_register(&self, channel: usize, callable: bool) -> (r: Result<
        RegisterAction,
        RegistryError,
    >)
        ensures
            !callable ==> r == Err::<RegisterAction, RegistryError>(RegistryError::NotCallable),
            callable && !self@.contains_key(channel) ==> r == Ok::<
                RegisterAction,
                RegistryError,
            >(RegisterAction::AttachInput(InputTrigger::BothEdge)),
            callable && self@.contains_key(channel) ==> r == Ok::<RegisterAction, RegistryError>(
                RegisterAction::Store,
            ),
    {
        if !callable {
            return Err(RegistryError::NotCallable);
        }
        if self.channels.contains_key(&channel) {
            Ok(RegisterAction::Store)
        } else {
            Ok(RegisterAction::AttachInput(InputTrigger::BothEdge))
        }
    }

    /// Stores `callback` for `channel`. A callback whose key is registered
    /// for the channel already changes nothing (the first one stays);
    /// otherwise it is appended. Returns whether it was added.
    pub fn add_callback(&mut self, channel: usize, callback: Callback<F>) -> (added: bool)
        ensures
            final(self).wf(),
            final(self)@ == after_add(old(self)@, channel, callback.key),
            added == !keys_at(old(self)@, channel).contains(callback.key),
            added ==> final(self).entries() == old(self).entries().insert(
                channel,
                (if old(self).entries().contains_key(channel) {
                    old(self).entries()[channel]
                } else {
                    Seq::empty()
                }).push(callback),
            ),
            !added ==> final(self).entries() == old(self).entries(),
    {
        let ghost old_entries = self.entries();
        let ghost old_view = self@;
        let mut channels = self.take_channels();
        let mut cur = match channels.remove(&channel) {
            Some(v) => v,
            None => Vec::new(),
        };
        let ghost cur0 = cur@;
        assert(keys_of(cur0) == keys_at(old_view, channel));
        let pos = position(&cur, callback.key);
        let found = match pos {
            Some(i) => {
                assert(keys_of(cur0)[i as int] == callback.key);
                true
            },
            None => false,
        };
        let ghost key = callback.key;
        if !found {
            cur.push(callback);
        }
        channels.insert(channel, cur);
        proof {
            if found {
                if old_entries.contains_key(channel) {
                    assert(entries_of(channels@) =~= old_entries);
                }
                assert(keys_view(channels@) =~= after_add(old_view, channel, key));
            } else {
                assert(keys_of(cur@) =~= keys_of(cur0).push(key));
                assert(entries_of(channels@) =~= old_entries.insert(channel, cur@));
                assert(keys_view(channels@) =~= old_view.insert(channel, keys_of(cur@)));
                assert(keys_view(channels@) =~= after_add(old_view, channel, key));
            }
            lemma_steps_keep_keys_unique(old_view, channel, key);
        }
        self.channels = channels;
        !found
    }

    /// Removes the callback with `key` from `channel`. The channel's entry
    /// stays, empty when no callback is left; then the input-level
    /// callback has to be released, and the entry with it.
    pub fn remove_callback(&mut self, channel: usize, key: u64) -> (r: Result<
        UnregisterAction,
        RegistryError,
    >)
        ensures
            final(self).wf(),
            !old(self)@.contains_key(channel) ==> r == Err::<UnregisterAction, RegistryError>(
                RegistryError::ChannelNotRegistered,
            ),
            old(self)@.contains_key(channel) && !old(self)@[channel].contains(key) ==> r == Err::<
                UnregisterAction,
                RegistryError,
            >(RegistryError::CallbackNotRegistered),
            old(self)@.contains_key(channel) && old(self)@[channel].contains(key) ==> r is Ok,
            r is Err ==> final(self).entries() == old(self).entries(),
            r is Ok ==> {
                &&& old(self)@.contains_key(channel)
                &&& old(self)@[channel].contains(key)
                &&& final(self)@ == after_remove(old(self)@, channel, key)
                &&& r == Ok::<UnregisterAction, RegistryError>(
                    if final(self)@[channel].len() == 0 {
                        UnregisterAction::DetachInput
                    } else {
                        UnregisterAction::Done
                    },
                )
                &&& exists|i: int|
                    0 <= i < old(self).entries()[channel].len()
                        && #[trigger] old(self).entries()[channel][i].key == key
                        && final(self).entries() == old(self).entries().insert(
                        channel,
                        old(self).entries()[channel].remove(i),
                    )
            },
    {
        let ghost old_entries = self.entries();
        let ghost old_view = self@;
        let mut channels = self.take_channels();
        let mut cur = match channels.remove(&channel) {
            Some(v) => v,
            None => {
                assert(entries_of(channels@) =~= old_entries);
                self.channels = channels;
                return Err(RegistryError::ChannelNotRegistered);
            },
        };
        let ghost cur0 = cur@;
        assert(old_view.contains_key(channel));
        assert(old_view[channel] == keys_of(cur0));
        match position(&cur, key) {
            None => {
                channels.insert(channel, cur);
                assert(entries_of(channels@) =~= old_entries);
                self.channels = channels;
                Err(RegistryError::CallbackNotRegistered)
            },
            Some(i) => {
                let _removed = cur.remove(i);
                let empty = cur.len() == 0;
                channels.insert(channel, cur);
                proof {
                    let ks = keys_of(cur0);
                    assert(ks[i as int] == key);
                    assert(ks.no_duplicates());
                    assert(ks.index_of(key) == i as int);
                    assert(keys_of(cur@) =~= ks.remove(i as int));
                    assert(entries_of(channels@) =~= old_entries.insert(
                        channel,
                        cur0.remove(i as int),
                    ));
                    assert(keys_view(channels@) =~= old_view.insert(channel, keys_of(cur@)));
                    assert(keys_view(channels@) =~= after_remove(old_view, channel, key));
                    lemma_steps_keep_keys_unique(old_view, channel, key);
                    assert(old_entries[channel][i as int].key == key);
                }
                self.channels = channels;
                if empty {
                    Ok(UnregisterAction::DetachInput)
                } else {
                    Ok(UnregisterAction::Done)
                }
            },
        }
    }

    /// Ends a registration whose plan was `plan_register(channel, true)`:
    /// `attached` tells whether attaching the input-level callback
    /// succeeded. The callback is stored when the channel has an entry
    /// already (its input is attached) or the attach succeeded; otherwise
    /// nothing changes. Returns whether it was added.
    pub fn finish_register(
        &mut self,
        channel: usize,
        callback: Callback<F>,
        attached: bool,
    ) -> (added: bool)
        ensures
            final(self).wf(),
            final(self)@ == register_outcome(
                old(self)@,
                old(self)@.dom(),
                channel,
                callback.key,
                attached,
            ).0,
            final(self)@.dom() == register_outcome(
                old(self)@,
                old(self)@.dom(),
                channel,
                callback.key,
                attached,
            ).1,
            added == ((attached || old(self)@.contains_key(channel)) && !keys_at(
                old(self)@,
                channel,
            ).contains(callback.key)),
            added ==> final(self).entries() == old(self).entries().insert(
                channel,
                (if old(self).entries().contains_key(channel) {
                    old(self).entries()[channel]
                } else {
                    Seq::empty()
                }).push(callback),
            ),
            !added ==> final(self).entries() == old(self).entries(),
    {
        proof {
            use_type_invariant(&*self);
            lemma_attached_matches_entries(
                self@,
                self@.dom(),
                channel,
                callback.key,
                attached,
            );
        }
        if attached || self.channels.contains_key(&channel) {
            self.add_callback(channel, callback)
        } else {
            false
        }
    }

    /// Ends an un-registration whose removal answered `DetachInput`:
    /// `detached` tells whether releasing the input-level callback
    /// succeeded. The channel's entry is released only then, and only when
    /// no callback is left in it. Returns whether the entry was removed.
    pub fn finish_unregister(&mut self, channel: usize, detached: bool) -> (released: bool)
        ensures
            final(self).wf(),
            released == (detached && old(self)@.contains_key(channel) && old(self)@[channel].len()
                == 0),
            final(self)@ == (if detached {
                after_release(old(self)@, channel)
            } else {
                old(self)@
            }),
            released ==> final(self).entries() == old(self).entries().remove(channel),
            !released ==> final(self).entries() == old(self).entries(),
    {
        proof {
            use_type_invariant(&*self);
        }
        if !detached {
            return false;
        }
        let ghost old_entries = self.entries();
        let ghost old_view = self@;
        let mut channels = self.take_channels();
        let empty = match channels.get(&channel) {
            Some(v) => v.len() == 0,
            None => false,
        };
        if empty {
            channels.remove(&channel);
            assert(entries_of(channels@) =~= old_entries.remove(channel));
            assert(keys_view(channels@) =~= old_view.remove(channel));
        }
        proof {
            lemma_steps_keep_keys_unique(old_view, channel, 0);
        }
        self.channels = channels;
        empty
    }

    /// The callbacks to call when `channel` changes; `None` when the
    /// channel has no entry.
    pub fn callbacks_of(&self, channel: usize) -> (r: Option<&Vec<Callback<F>>>)
        ensures
            match r {
                None => !self@.contains_key(channel),
                Some(v) => self@.contains_key(channel) && v@ == self.entries()[channel],
            },
    {
        self.channels.get(&channel)
    }
}

/// The position of the callback with `key` in `v`, if any.
fn position<F>(v: &Vec<Callback<F>>, key: u64) -> (r: Option<usize>)
    ensures
        match r {
            Some(i) => i < v@.len() && v@[i as int].key == key,
            None => !keys_of(v@).contains(key),
        },
{
    let mut i: usize = 0;
    while i < v.len()
        invariant
            i <= v@.len(),
            forall|j: int| 0 <= j < i ==> v@[j].key != key,
        decreases v@.len() - i,
    {
        if v[i].key == key {
            return Some(i);
        }
        i = i + 1;
    }
    assert forall|j: int| 0 <= j < keys_of(v@).len() implies keys_of(v@)[j] != key by {}
    None
}

} // verus!

verus! {

/// Registering the same callback for the same channel twice has no more
/// effect than registering it once.
pub proof fn lemma_add_twice_same_as_once(m: Map<usize, Seq<u64>>, channel: usize, key: u64)
    ensures
        after_add(after_add(m, channel, key), channel, key) == after_add(m, channel, key),
{
    let m1 = after_add(m, channel, key);
    assert(keys_at(m1, channel).contains(key)) by {
        if !keys_at(m, channel).contains(key) {
            assert(keys_at(m1, channel)[keys_at(m, channel).len() as int] == key);
        }
    }
}

/// Several callbacks can be registered for one channel: after registering
/// two keys, both are registered, and the first one before the second
/// when both are new.
pub proof fn lemma_add_keeps_other_callbacks(
    m: Map<usize, Seq<u64>>,
    channel: usize,
    k1: u64,
    k2: u64,
)
    ensures
        ({
            let m2 = after_add(after_add(m, channel, k1), channel, k2);
            &&& m2.contains_key(channel)
            &&& keys_at(m2, channel).contains(k1)
            &&& keys_at(m2, channel).contains(k2)
            &&& !keys_at(m, channel).contains(k1) && !keys_at(m, channel).contains(k2) && k1 != k2
                ==> keys_at(m2, channel) == keys_at(m, channel).push(k1).push(k2)
        }),
{
    let m1 = after_add(m, channel, k1);
    let m2 = after_add(m1, channel, k2);
    let s = keys_at(m, channel);
    if !s.contains(k1) {
        assert(keys_at(m1, channel)[s.len() as int] == k1);
    }
    assert(keys_at(m1, channel).contains(k1));
    if s.contains(k1) {
        let i = choose|i: int| 0 <= i < s.len() && s[i] == k1;
        assert(keys_at(m1, channel)[i] == k1);
    }
    if !keys_at(m1, channel).contains(k2) {
        assert(keys_at(m2, channel)[keys_at(m1, channel).len() as int] == k2);
        let j = choose|j: int| 0 <= j < keys_at(m1, channel).len() && keys_at(m1, channel)[j] == k1;
        assert(keys_at(m2, channel)[j] == k1);
    }
    if !s.contains(k1) && !s.contains(k2) && k1 != k2 {
        assert(!keys_at(m1, channel).contains(k2)) by {
            if keys_at(m1, channel).contains(k2) {
                let j = choose|j: int|
                    0 <= j < keys_at(m1, channel).len() && keys_at(m1, channel)[j] == k2;
                if j < s.len() {
                    assert(s[j] == k2);
                }
            }
        }
    }
}

/// Un-registering is the counterpart of registering: registering a new
/// callback and un-registering it again (releasing the channel when it
/// has no callback left) gives back the registrations from before.
pub proof fn lemma_remove_undoes_add(m: Map<usize, Seq<u64>>, channel: usize, key: u64)
    requires
        keys_unique(m),
        !m.contains_key(channel) || (m[channel].len() > 0 && !m[channel].contains(key)),
    ensures
        after_release(after_remove(after_add(m, channel, key), channel, key), channel) == m,
{
    let s = keys_at(m, channel);
    let m1 = after_add(m, channel, key);
    assert(m1 == m.insert(channel, s.push(key)));
    let t = s.push(key);
    assert(t[s.len() as int] == key);
    assert(t.contains(key));
    let idx = t.index_of(key);
    assert(0 <= idx < t.len() && t[idx] == key);
    if idx < s.len() {
        assert(s[idx] == key);
    }
    assert(idx == s.len());
    assert(t.remove(idx) =~= s);
    let m2 = after_remove(m1, channel, key);
    assert(m2 == m.insert(channel, s));
    if m.contains_key(channel) {
        assert(m2 =~= m);
    } else {
        assert(m2.remove(channel) =~= m);
    }
}

/// The state of the input callbacks: the registrations, and the inputs
/// whose input-level callback is attached in the I/O library.
pub open spec fn attached_consistent(m: Map<usize, Seq<u64>>, attached: Set<usize>) -> bool {
    m.dom() == attached
}

/// Registering `key` for `channel`: the input-level callback is attached
/// first when the channel has no entry; when that fails nothing changes.
pub open spec fn register_outcome(
    m: Map<usize, Seq<u64>>,
    attached: Set<usize>,
    channel: usize,
    key: u64,
    attach_ok: bool,
) -> (Map<usize, Seq<u64>>, Set<usize>) {
    if !m.contains_key(channel) {
        if attach_ok {
            (after_add(m, channel, key), attached.insert(channel))
        } else {
            (m, attached)
        }
    } else {
        (after_add(m, channel, key), attached)
    }
}

/// Un-registering `key` from `channel`: when the callback is registered it
/// is removed, and when it was the last one the input-level callback is
/// released and, if that succeeds, the channel's entry too.
pub open spec fn unregister_outcome(
    m: Map<usize, Seq<u64>>,
    attached: Set<usize>,
    channel: usize,
    key: u64,
    detach_ok: bool,
) -> (Map<usize, Seq<u64>>, Set<usize>) {
    if m.contains_key(channel) && m[channel].contains(key) {
        let m1 = after_remove(m, channel, key);
        if m1[channel].len() == 0 && detach_ok {
            (after_release(m1, channel), attached.remove(channel))
        } else {
            (m1, attached)
        }
    } else {
        (m, attached)
    }
}

/// The input-level callback is attached exactly for the channels that
/// have an entry, whatever the I/O library answers to attaching and
/// releasing it.
pub proof fn lemma_attached_matches_entries(
    m: Map<usize, Seq<u64>>,
    attached: Set<usize>,
    channel: usize,
    key: u64,
    io_ok: bool,
)
    requires
        attached_consistent(m, attached),
    ensures
        attached_consistent(
            register_outcome(m, attached, channel, key, io_ok).0,
            register_outcome(m, attached, channel, key, io_ok).1,
        ),
        attached_consistent(
            unregister_outcome(m, attached, channel, key, io_ok).0,
            unregister_outcome(m, attached, channel, key, io_ok).1,
        ),
{
    let r = register_outcome(m, attached, channel, key, io_ok);
    assert(r.0.dom() =~= r.1);
    let u = unregister_outcome(m, attached, channel, key, io_ok);
    assert(u.0.dom() =~= u.1);
}

/// The two steps of un-registering, removing the callback and then
/// finishing with the outcome of releasing the input-level callback, give
/// the outcome of `unregister_outcome` for a registered callback; the
/// release is asked for only when the removal left the channel empty.
pub proof fn lemma_unregister_steps(m: Map<usize, Seq<u64>>, channel: usize, key: u64, detached: bool)
    requires
        m.contains_key(channel),
        m[channel].contains(key),
    ensures
        ({
            let m1 = after_remove(m, channel, key);
            let m2 = if m1[channel].len() == 0 && detached {
                after_release(m1, channel)
            } else {
                m1
            };
            &&& m2 == unregister_outcome(m, m.dom(), channel, key, detached).0
            &&& m2.dom() == unregister_outcome(m, m.dom(), channel, key, detached).1
        }),
{
    let m1 = after_remove(m, channel, key);
    assert(m1.dom() =~= m.dom());
    if m1[channel].len() == 0 && detached {
        assert(after_release(m1, channel).dom() =~= m.dom().remove(channel));
    }
}

/// Every step keeps each channel free of repeated callbacks.
pub proof fn lemma_steps_keep_keys_unique(m: Map<usize, Seq<u64>>, channel: usize, key: u64)
    requires
        keys_unique(m),
    ensures
        keys_unique(after_add(m, channel, key)),
        m.contains_key(channel) && m[channel].contains(key) ==> keys_unique(
            after_remove(m, channel, key),
        ),
        keys_unique(after_release(m, channel)),
{
    let s = keys_at(m, channel);
    if m.contains_key(channel) {
        assert(m[channel].no_duplicates());
    }
    let m1 = after_add(m, channel, key);
    assert forall|c: usize| #[trigger] m1.contains_key(c) implies m1[c].no_duplicates() by {
        if c != channel {
            assert(m.contains_key(c));
        } else if !s.contains(key) {
            let t = s.push(key);
            assert forall|a: int, b: int| 0 <= a < t.len() && 0 <= b < t.len() && a != b implies t[a]
                != t[b] by {
                if a == s.len() {
                    assert(!s.contains(key));
                    assert(s[b] != key);
                } else if b == s.len() {
                    assert(s[a] != key);
                }
            }
        } else {
            assert(m.contains_key(c));
        }
    }
    if m.contains_key(channel) && m[channel].contains(key) {
        let m2 = after_remove(m, channel, key);
        let i = s.index_of(key);
        let t = s.remove(i);
        assert forall|c: usize| #[trigger] m2.contains_key(c) implies m2[c].no_duplicates() by {
            if c != channel {
                assert(m.contains_key(c));
            } else {
                assert forall|a: int, b: int|
                    0 <= a < t.len() && 0 <= b < t.len() && a != b implies t[a] != t[b] by {
                    let a0 = if a < i { a } else { a + 1 };
                    let b0 = if b < i { b } else { b + 1 };
                    assert(t[a] == s[a0]);
                    assert(t[b] == s[b0]);
                }
            }
        }
    }
    let m3 = after_release(m, channel);
    assert forall|c: usize| #[trigger] m3.contains_key(c) implies m3[c].no_duplicates() by {
        assert(m.contains_key(c));
    }
}

} // verus!
