use vstd::prelude::*;
use crate::key_table::KeyTable;

verus! {

#[verifier::external_type_specification]
#[verifier::external_body]
pub struct ExRsaPrivateKey(rsa::RSAPrivateKey);

/// A named public key as carried by key events. `public_key` holds the base64
/// body of an `ssh-rsa` public key, without its type marker.
pub struct PublicKey {
    pub name: String,
    pub public_key: String,
}

/// A shared secret and the identifier it is known by.
pub struct Credentials {
    pub identifier: String,
    pub secret: String,
}

pub struct TrustedKeyAddedEvent {
    pub name: String,
    pub public_key: Option<PublicKey>,
}

pub struct TrustedKeyRemovedEvent {
    pub name: String,
}

pub struct KeyManagerAddedEvent {
    pub name: String,
    pub public_key: Option<PublicKey>,
}

pub struct KeyManagerRemovedEvent {
    pub name: String,
}

pub struct CredentialsAddedEvent {
    pub identifier: String,
    pub credentials: Option<Credentials>,
}

pub struct CredentialsRemovedEvent {
    pub identifier: String,
}

/// The six domain events that keep a trust store up to date.
pub enum AuthEvent {
    TrustedKeyAdded(TrustedKeyAddedEvent),
    TrustedKeyRemoved(TrustedKeyRemovedEvent),
    KeyManagerAdded(KeyManagerAddedEvent),
    KeyManagerRemoved(KeyManagerRemovedEvent),
    CredentialsAdded(CredentialsAddedEvent),
    CredentialsRemoved(CredentialsRemovedEvent),
}

/// The three independent namespaces of a trust store.
#[derive(PartialEq, Eq, Structural)]
pub enum Namespace {
    TrustedKeys,
    KeyManagers,
    Credentials,
}

/// The abstract contents of a trust store.
pub struct TrustState {
    pub trusted_keys: Map<Seq<char>, Seq<char>>,
    pub key_managers: Map<Seq<char>, Seq<char>>,
    pub credentials: Map<Seq<char>, Seq<char>>,
    pub private_key_name: Seq<char>,
    pub has_private_key: bool,
}

impl TrustState {
    /// The state of a store that has seen no event.
    pub open spec fn fresh() -> TrustState {
        TrustState {
            trusted_keys: Map::empty(),
            key_managers: Map::empty(),
            credentials: Map::empty(),
            private_key_name: Seq::empty(),
            has_private_key: false,
        }
    }

    /// The mapping of one namespace.
    pub open spec fn table(self, ns: Namespace) -> Map<Seq<char>, Seq<char>> {
        match ns {
            Namespace::TrustedKeys => self.trusted_keys,
            Namespace::KeyManagers => self.key_managers,
            Namespace::Credentials => self.credentials,
        }
    }

    /// The effect of one event: an added payload is written under its own
    /// name, a removal deletes the name, an addition without payload changes nothing.
    pub open spec fn apply(self, e: AuthEvent) -> TrustState {
        match e {
            AuthEvent::TrustedKeyAdded(ev) => match ev.public_key {
                Some(pk) => TrustState {
                    trusted_keys: self.trusted_keys.insert(pk.name@, pk.public_key@),
                    ..self
                },
                None => self,
            },
            AuthEvent::TrustedKeyRemoved(ev) => TrustState {
                trusted_keys: self.trusted_keys.remove(ev.name@),
                ..self
            },
            AuthEvent::KeyManagerAdded(ev) => match ev.public_key {
                Some(pk) => TrustState {
                    key_managers: self.key_managers.insert(pk.name@, pk.public_key@),
                    ..self
                },
                None => self,
            },
            AuthEvent::KeyManagerRemoved(ev) => TrustState {
                key_managers: self.key_managers.remove(ev.name@),
                ..self
            },
            AuthEvent::CredentialsAdded(ev) => match ev.credentials {
                Some(c) => TrustState {
                    credentials: self.credentials.insert(c.identifier@, c.secret@),
                    ..self
                },
                None => self,
            },
            AuthEvent::CredentialsRemoved(ev) => TrustState {
                credentials: self.credentials.remove(ev.identifier@),
                ..self
            },
        }
    }
}

/// The state reached from `s` by applying `events` in order.
pub open spec fn apply_all(s: TrustState, events: Seq<AuthEvent>) -> TrustState
    decreases events.len(),
{
    if events.len() == 0 {
        s
    } else {
        apply_all(s, events.drop_last()).apply(events.last())
    }
}

/// The namespace and name that an event writes, if it writes any.
pub open spec fn event_target(e: AuthEvent) -> Option<(Namespace, Seq<char>)> {
    match e {
        AuthEvent::TrustedKeyAdded(ev) => match ev.public_key {
            Some(pk) => Some((Namespace::TrustedKeys, pk.name@)),
            None => None,
        },
        AuthEvent::TrustedKeyRemoved(ev) => Some((Namespace::TrustedKeys, ev.name@)),
        AuthEvent::KeyManagerAdded(ev) => match ev.public_key {
            Some(pk) => Some((Namespace::KeyManagers, pk.name@)),
            None => None,
        },
        AuthEvent::KeyManagerRemoved(ev) => Some((Namespace::KeyManagers, ev.name@)),
        AuthEvent::CredentialsAdded(ev) => match ev.credentials {
            Some(c) => Some((Namespace::Credentials, c.identifier@)),
            None => None,
        },
        AuthEvent::CredentialsRemoved(ev) => Some((Namespace::Credentials, ev.identifier@)),
    }
}

/// What an event leaves under its target: the added value, or nothing for a removal.
pub open spec fn event_value(e: AuthEvent) -> Option<Seq<char>> {
    match e {
        AuthEvent::TrustedKeyAdded(ev) => match ev.public_key {
            Some(pk) => Some(pk.public_key@),
            None => None,
        },
        AuthEvent::KeyManagerAdded(ev) => match ev.public_key {
            Some(pk) => Some(pk.public_key@),
            None => None,
        },
        AuthEvent::CredentialsAdded(ev) => match ev.credentials {
            Some(c) => Some(c.secret@),
            None => None,
        },
        _ => None,
    }
}

/// The value of `k` in `m`, if any.
pub open spec fn lookup(m: Map<Seq<char>, Seq<char>>, k: Seq<char>) -> Option<Seq<char>> {
    if m.contains_key(k) {
        Some(m[k])
    } else {
        None
    }
}

/// What the last event of `events` that writes `(ns, k)` leaves there; `None`
/// when no event writes it.
pub open spec fn last_write(events: Seq<AuthEvent>, ns: Namespace, k: Seq<char>) -> Option<
    Option<Seq<char>>,
>
    decreases events.len(),
{
    if events.len() == 0 {
        None
    } else if event_target(events.last()) == Some((ns, k)) {
        Some(event_value(events.last()))
    } else {
        last_write(events.drop_last(), ns, k)
    }
}

/// Whether an event writes somewhere other than `t`.
pub open spec fn writes_elsewhere(t: (Namespace, Seq<char>)) -> spec_fn(AuthEvent) -> bool {
    |x: AuthEvent| event_target(x) != Some(t)
}

/// The events of `events` that no later event overrides: for each written
/// name, only the last event that writes it, in the order they came.
pub open spec fn last_events(events: Seq<AuthEvent>) -> Seq<AuthEvent>
    decreases events.len(),
{
    if events.len() == 0 {
        events
    } else {
        let rest = last_events(events.drop_last());
        match event_target(events.last()) {
            Some(t) => rest.filter(writes_elsewhere(t)).push(events.last()),
            None => rest,
        }
    }
}

proof fn lemma_apply_one(s: TrustState, e: AuthEvent, ns: Namespace, k: Seq<char>)
    ensures
        s.apply(e).private_key_name == s.private_key_name,
        s.apply(e).has_private_key == s.has_private_key,
        lookup(s.apply(e).table(ns), k) == if event_target(e) == Some((ns, k)) {
            event_value(e)
        } else {
            lookup(s.table(ns), k)
        },
{
}

proof fn lemma_apply_all_lookup(s: TrustState, events: Seq<AuthEvent>, ns: Namespace, k: Seq<char>)
    ensures
        apply_all(s, events).private_key_name == s.private_key_name,
        apply_all(s, events).has_private_key == s.has_private_key,
        lookup(apply_all(s, events).table(ns), k) == match last_write(events, ns, k) {
            Some(w) => w,
            None => lookup(s.table(ns), k),
        },
    decreases events.len(),
{
    if events.len() > 0 {
        lemma_apply_all_lookup(s, events.drop_last(), ns, k);
        lemma_apply_one(apply_all(s, events.drop_last()), events.last(), ns, k);
    }
}

proof fn lemma_filter_last_write(
    events: Seq<AuthEvent>,
    t: (Namespace, Seq<char>),
    ns: Namespace,
    k: Seq<char>,
)
    ensures
        last_write(events.filter(writes_elsewhere(t)), ns, k) == if (ns, k) == t {
            None
        } else {
            last_write(events, ns, k)
        },
    decreases events.len(),
{
    let f = writes_elsewhere(t);
    if events.len() > 0 {
        lemma_filter_last_write(events.drop_last(), t, ns, k);
        let sub = events.drop_last().filter(f);
        reveal(Seq::filter);
        assert(events.filter(f) == if f(events.last()) {
            sub.push(events.last())
        } else {
            sub
        });
        if f(events.last()) {
            assert(sub.push(events.last()).drop_last() =~= sub);
        }
    }
}

proof fn lemma_last_events_last_write(events: Seq<AuthEvent>, ns: Namespace, k: Seq<char>)
    ensures
        last_write(last_events(events), ns, k) == last_write(events, ns, k),
    decreases events.len(),
{
    if events.len() > 0 {
        lemma_last_events_last_write(events.drop_last(), ns, k);
        let rest = last_events(events.drop_last());
        match event_target(events.last()) {
            Some(t) => {
                let kept = rest.filter(writes_elsewhere(t));
                lemma_filter_last_write(rest, t, ns, k);
                assert(kept.push(events.last()).drop_last() =~= kept);
            },
            None => {},
        }
    }
}

/// Last write wins: after any sequence of events on a fresh store, each name
/// of each namespace holds what the last event that writes that name left
/// there, and is absent when no event writes it.
pub proof fn lemma_last_write_wins(events: Seq<AuthEvent>, ns: Namespace, k: Seq<char>)
    ensures
        lookup(apply_all(TrustState::fresh(), events).table(ns), k) == match last_write(
            events,
            ns,
            k,
        ) {
            Some(w) => w,
            None => None,
        },
{
    lemma_apply_all_lookup(TrustState::fresh(), events, ns, k);
}

/// Applying a sequence of events to a fresh store gives the same state as
/// applying only the last event for each name.
pub proof fn lemma_only_last_events_matter(events: Seq<AuthEvent>)
    ensures
        apply_all(TrustState::fresh(), events) == apply_all(TrustState::fresh(), last_events(events)),
{
    let s = TrustState::fresh();
    let a = apply_all(s, events);
    let b = apply_all(s, last_events(events));
    assert forall|ns: Namespace| #[trigger] a.table(ns) =~= b.table(ns) by {
        assert forall|k: Seq<char>| #[trigger] lookup(a.table(ns), k) == lookup(b.table(ns), k) by {
            lemma_apply_all_lookup(s, events, ns, k);
            lemma_apply_all_lookup(s, last_events(events), ns, k);
            lemma_last_events_last_write(events, ns, k);
        };
        assert forall|k: Seq<char>| #[trigger] a.table(ns).contains_key(k) == b.table(
            ns,
        ).contains_key(k) by {
            assert(lookup(a.table(ns), k) == lookup(b.table(ns), k));
        };
        assert forall|k: Seq<char>| a.table(ns).contains_key(k) implies #[trigger] a.table(ns)[k]
            == b.table(ns)[k] by {
            assert(lookup(a.table(ns), k) == lookup(b.table(ns), k));
        };
    };
    lemma_apply_all_lookup(s, events, Namespace::TrustedKeys, Seq::empty());
    lemma_apply_all_lookup(s, last_events(events), Namespace::TrustedKeys, Seq::empty());
    assert(a.table(Namespace::TrustedKeys) == b.table(Namespace::TrustedKeys));
    assert(a.table(Namespace::KeyManagers) == b.table(Namespace::KeyManagers));
    assert(a.table(Namespace::Credentials) == b.table(Namespace::Credentials));
}

/// The trusted signing keys, key-manager keys and shared credentials of a
/// service, with an optional local private key for signing.
pub struct TrustStore {
    trusted_keys: KeyTable,
    key_managers: KeyTable,
    credentials: KeyTable,
    private_key: Option<rsa::RSAPrivateKey>,
    private_key_name: String,
}

impl View for TrustStore {
    type V = TrustState;

    closed spec fn view(&self) -> TrustState {
        TrustState {
            trusted_keys: self.trusted_keys@,
            key_managers: self.key_managers@,
            credentials: self.credentials@,
            private_key_name: self.private_key_name@,
            has_private_key: self.private_key is Some,
        }
    }
}

impl TrustStore {
    pub closed spec fn wf(&self) -> bool {
        self.trusted_keys.wf() && self.key_managers.wf() && self.credentials.wf()
    }

    /// A store that holds nothing.
    pub fn new() -> (r: TrustStore)
        ensures
            r.wf(),
            r@ == TrustState::fresh(),
    {
        TrustStore {
            trusted_keys: KeyTable::new(),
            key_managers: KeyTable::new(),
            credentials: KeyTable::new(),
            private_key: None,
            private_key_name: String::new(),
        }
    }

    /// The raw key stored under `key_id` among the trusted signing keys.
    pub fn lookup_trusted_key(&self, key_id: &str) -> (r: Option<&String>)
        requires
            self.wf(),
        ensures
            r is Some <==> self@.trusted_keys.contains_key(key_id@),
            r is Some ==> r.unwrap()@ == self@.trusted_keys[key_id@],
    {
        self.trusted_keys.get(key_id)
    }

    /// The key stored under `name` among the key-manager keys.
    pub fn lookup_key_manager(&self, name: &str) -> (r: Option<&String>)
        requires
            self.wf(),
        ensures
            r is Some <==> self@.key_managers.contains_key(name@),
            r is Some ==> r.unwrap()@ == self@.key_managers[name@],
    {
        self.key_managers.get(name)
    }

    /// The secret stored under `identifier` among the credentials.
    pub fn lookup_credentials(&self, identifier: &str) -> (r: Option<&String>)
        requires
            self.wf(),
        ensures
            r is Some <==> self@.credentials.contains_key(identifier@),
            r is Some ==> r.unwrap()@ == self@.credentials[identifier@],
    {
        self.credentials.get(identifier)
    }

    /// The number of credentials in the store.
    pub fn credentials_len(&self) -> (r: usize)
        requires
            self.wf(),
        ensures
            r == self@.credentials.dom().len(),
    {
        self.credentials.len()
    }

    /// Installs the local signing key under `name`, replacing any earlier one.
    pub fn install_private_key(&mut self, name: String, key: rsa::RSAPrivateKey)
        requires
            old(self).wf(),
        ensures
            final(self).wf(),
            final(self)@ == (TrustState { private_key_name: name@, has_private_key: true, ..old(self)@ }),
    {
        self.private_key = Some(key);
        self.private_key_name = name;
    }

    /// The name of the local signing key; empty while none is installed.
    pub fn private_key_name(&self) -> (r: &String)
        ensures
            r@ == self@.private_key_name,
    {
        &self.private_key_name
    }

    /// Whether a local signing key is installed.
    pub fn has_private_key(&self) -> (r: bool)
        ensures
            r == self@.has_private_key,
    {
        self.private_key.is_some()
    }
}

/// Trusts `public_key` for signing tokens, under its own name.
pub fn unchecked_set_public_key(store: &mut TrustStore, public_key: PublicKey)
    requires
        old(store).wf(),
    ensures
        final(store).wf(),
        final(store)@ == (TrustState {
            trusted_keys: old(store)@.trusted_keys.insert(public_key.name@, public_key.public_key@),
            ..old(store)@
        }),
{
    store.trusted_keys.insert(public_key.name, public_key.public_key);
}

/// Records `public_key` as a key-manager key, under its own name.
pub fn unchecked_set_key_manager(store: &mut TrustStore, public_key: PublicKey)
    requires
        old(store).wf(),
    ensures
        final(store).wf(),
        final(store)@ == (TrustState {
            key_managers: old(store)@.key_managers.insert(public_key.name@, public_key.public_key@),
            ..old(store)@
        }),
{
    store.key_managers.insert(public_key.name, public_key.public_key);
}

/// Records the secret of `credentials` under its identifier.
pub fn unchecked_set_credentials(store: &mut TrustStore, credentials: Credentials)
    requires
        old(store).wf(),
    ensures
        final(store).wf(),
        final(store)@ == (TrustState {
            credentials: old(store)@.credentials.insert(credentials.identifier@, credentials.secret@),
            ..old(store)@
        }),
{
    store.credentials.insert(credentials.identifier, credentials.secret);
}

/// Stops trusting the signing key `name`; an unknown name changes nothing.
pub fn remove_public_key(store: &mut TrustStore, name: &str)
    requires
        old(store).wf(),
    ensures
        final(store).wf(),
        final(store)@ == (TrustState { trusted_keys: old(store)@.trusted_keys.remove(name@), ..old(store)@ }),
{
    store.trusted_keys.remove(name);
}

/// Forgets the key-manager key `name`; an unknown name changes nothing.
pub fn remove_key_manager(store: &mut TrustStore, name: &str)
    requires
        old(store).wf(),
    ensures
        final(store).wf(),
        final(store)@ == (TrustState { key_managers: old(store)@.key_managers.remove(name@), ..old(store)@ }),
{
    store.key_managers.remove(name);
}

/// Forgets the credentials `identifier`; an unknown identifier changes nothing.
pub fn remove_credentials(store: &mut TrustStore, identifier: &str)
    requires
        old(store).wf(),
    ensures
        final(store).wf(),
        final(store)@ == (TrustState {
            credentials: old(store)@.credentials.remove(identifier@),
            ..old(store)@
        }),
{
    store.credentials.remove(identifier);
}

/// Trusts the key that the event carries; an event without a key changes nothing.
pub fn handle_trusted_key_added_event(store: &mut TrustStore, event: TrustedKeyAddedEvent)
    requires
        old(store).wf(),
    ensures
        final(store).wf(),
        final(store)@ == old(store)@.apply(AuthEvent::TrustedKeyAdded(event)),
{
    if let Some(public_key) = event.public_key {
        unchecked_set_public_key(store, public_key);
    }
}

/// Stops trusting the key the event names.
pub fn handle_trusted_key_removed_event(store: &mut TrustStore, event: TrustedKeyRemovedEvent)
    requires
        old(store).wf(),
    ensures
        final(store).wf(),
        final(store)@ == old(store)@.apply(AuthEvent::TrustedKeyRemoved(event)),
{
    remove_public_key(store, event.name.as_str());
}

/// Records the key-manager key that the event carries; an event without a key changes nothing.
pub fn handle_key_manager_added_event(store: &mut TrustStore, event: KeyManagerAddedEvent)
    requires
        old(store).wf(),
    ensures
        final(store).wf(),
        final(store)@ == old(store)@.apply(AuthEvent::KeyManagerAdded(event)),
{
    if let Some(public_key) = event.public_key {
        unchecked_set_key_manager(store, public_key);
    }
}

/// Forgets the key-manager key the event names.
pub fn handle_key_manager_removed_event(store: &mut TrustStore, event: KeyManagerRemovedEvent)
    requires
        old(store).wf(),
    ensures
        final(store).wf(),
        final(store)@ == old(store)@.apply(AuthEvent::KeyManagerRemoved(event)),
{
    remove_key_manager(store, event.name.as_str());
}

/// Records the credentials that the event carries; an event without them changes nothing.
pub fn handle_credentials_added_event(store: &mut TrustStore, event: CredentialsAddedEvent)
    requires
        old(store).wf(),
    ensures
        final(store).wf(),
        final(store)@ == old(store)@.apply(AuthEvent::CredentialsAdded(event)),
{
    if let Some(credentials) = event.credentials {
        unchecked_set_credentials(store, credentials);
    }
}

/// Forgets the credentials the event names.
pub fn handle_credentials_removed_event(store: &mut TrustStore, event: CredentialsRemovedEvent)
    requires
        old(store).wf(),
    ensures
        final(store).wf(),
        final(store)@ == old(store)@.apply(AuthEvent::CredentialsRemoved(event)),
{
    remove_credentials(store, event.identifier.as_str());
}

/// Applies one domain event to the store: exactly one namespace changes, in
/// the way `TrustState::apply` describes.
pub fn apply_event(store: &mut TrustStore, event: AuthEvent)
    requires
        old(store).wf(),
    ensures
        final(store).wf(),
        final(store)@ == old(store)@.apply(event),
{
    match event {
        AuthEvent::TrustedKeyAdded(ev) => handle_trusted_key_added_event(store, ev),
        AuthEvent::TrustedKeyRemoved(ev) => handle_trusted_key_removed_event(store, ev),
        AuthEvent::KeyManagerAdded(ev) => handle_key_manager_added_event(store, ev),
        AuthEvent::KeyManagerRemoved(ev) => handle_key_manager_removed_event(store, ev),
        AuthEvent::CredentialsAdded(ev) => handle_credentials_added_event(store, ev),
        AuthEvent::CredentialsRemoved(ev) => handle_credentials_removed_event(store, ev),
    }
}

/// Removing credentials that were never added is a no-op: the store,
/// and so the number of credentials it holds, stays as it was.
pub proof fn lemma_remove_absent_credentials(s: TrustState, event: CredentialsRemovedEvent)
    requires
        !s.credentials.contains_key(event.identifier@),
    ensures
        s.apply(AuthEvent::CredentialsRemoved(event)) == s,
        s.apply(AuthEvent::CredentialsRemoved(event)).credentials.dom().len() == s.credentials.dom().len(),
{
    assert(s.credentials.remove(event.identifier@) =~= s.credentials);
}

} // verus!
