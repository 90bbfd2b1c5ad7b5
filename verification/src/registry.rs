//! The registry itself: storage for subnet and provider records, the event
//! journal, and the two state transitions, each proved against the
//! mathematical model [`RegistryView`].

use std::collections::HashMap;
use vstd::prelude::*;

use crate::types::{
    AccountId, Error, Event, EventView, ProviderMetadata, ProviderMetadataView, SubnetMetadata,
    SubnetMetadataView,
};

verus! {

broadcast use vstd::std_specs::hash::group_hash_axioms;

/// The views of a sequence of provider records, in order.
pub open spec fn provider_views(s: Seq<ProviderMetadata>) -> Seq<ProviderMetadataView> {
    s.map(|i: int, p: ProviderMetadata| p@)
}

/// The views of a sequence of events, in order.
pub open spec fn event_views(s: Seq<Event>) -> Seq<EventView> {
    s.map(|i: int, e: Event| e@)
}

/// Mathematical state of the registry.
pub ghost struct RegistryView {
    /// Partial map from each subnet owner to the stored subnet metadata;
    /// absence of a key means the account owns no subnet.
    pub subnets: Map<AccountId, SubnetMetadataView>,
    /// Total map from every account to its provider list; an account without
    /// provider records maps to the empty sequence.
    pub providers: Map<AccountId, Seq<ProviderMetadataView>>,
    /// The events emitted so far, oldest first.
    pub events: Seq<EventView>,
}

impl RegistryView {
    /// Invariant: no orphan provider lists. Every account with at least one
    /// provider record owns a subnet; provider entries are only ever
    /// appended behind the existence check, so the public operations
    /// preserve this (see [`crate::laws`]).
    pub open spec fn no_orphan_providers(self) -> bool {
        forall|a: AccountId| #[trigger] self.providers[a].len() > 0 ==> self.subnets.contains_key(a)
    }

    /// The state of a freshly constructed registry.
    pub open spec fn initial() -> RegistryView {
        RegistryView {
            subnets: Map::empty(),
            providers: Map::new(|a: AccountId| true, |a: AccountId| Seq::empty()),
            events: Seq::empty(),
        }
    }

    /// Subnet creation succeeds exactly when the caller owns no subnet yet.
    pub open spec fn create_subnet_allowed(self, caller: AccountId) -> bool {
        !self.subnets.contains_key(caller)
    }

    /// The state after a successful subnet creation: the record is stored
    /// under the caller, providers are untouched, and exactly one
    /// `SubnetCreated` event is appended.
    pub open spec fn create_subnet_next(
        self,
        caller: AccountId,
        metadata: SubnetMetadataView,
    ) -> RegistryView {
        RegistryView {
            subnets: self.subnets.insert(caller, metadata),
            providers: self.providers,
            events: self.events.push(EventView::SubnetCreated(caller, metadata)),
        }
    }

    /// Provider registration succeeds exactly when the addressed owner
    /// already has a subnet record.
    pub open spec fn register_provider_allowed(self, subnet_owner: AccountId) -> bool {
        self.subnets.contains_key(subnet_owner)
    }

    /// The state after a successful provider registration: the record is
    /// appended to the owner's list, subnets are untouched, and exactly one
    /// `ProviderRegistered` event — naming the caller, not the owner — is
    /// appended.
    pub open spec fn register_provider_next(
        self,
        caller: AccountId,
        subnet_owner: AccountId,
        provider: ProviderMetadataView,
    ) -> RegistryView {
        RegistryView {
            subnets: self.subnets,
            providers: self.providers.insert(
                subnet_owner,
                self.providers[subnet_owner].push(provider),
            ),
            events: self.events.push(EventView::ProviderRegistered(caller, provider)),
        }
    }
}

/// The registry: a deterministic state machine over subnet records, provider
/// lists and an event journal. The host authenticates callers before any
/// operation runs, so every `AccountId` handed in is an already-verified
/// identity.
pub struct Pallet {
    subnets: HashMap<AccountId, SubnetMetadata>,
    providers: HashMap<AccountId, Vec<ProviderMetadata>>,
    events: Vec<Event>,
}

impl View for Pallet {
    type V = RegistryView;

    closed spec fn view(&self) -> RegistryView {
        RegistryView {
            subnets: Map::new(
                |a: AccountId| self.subnets@.contains_key(a),
                |a: AccountId| self.subnets@[a]@,
            ),
            providers: Map::new(
                |a: AccountId| true,
                |a: AccountId|
                    if self.providers@.contains_key(a) {
                        provider_views(self.providers@[a]@)
                    } else {
                        Seq::empty()
                    },
            ),
            events: event_views(self.events@),
        }
    }
}

impl Pallet {
    /// An empty registry: no subnets, no providers, no events.
    pub fn new() -> (r: Pallet)
        ensures
            r@ == RegistryView::initial(),
    {
        let r = Pallet { subnets: HashMap::new(), providers: HashMap::new(), events: Vec::new() };
        proof {
            assert(r@.subnets =~= RegistryView::initial().subnets);
            assert(r@.providers =~= RegistryView::initial().providers);
            assert(r@.events =~= RegistryView::initial().events);
        }
        r
    }

    /// Create the subnet record of `caller`.
    ///
    /// Succeeds if and only if `caller` owns no subnet yet; then the record
    /// is stored under `caller`, no provider list changes, and exactly one
    /// `SubnetCreated(caller, metadata)` event is appended. On failure the
    /// call returns `SubnetAlreadyExists` and changes nothing: no record, no
    /// event.
    pub fn create_subnet(&mut self, caller: AccountId, metadata: SubnetMetadata) -> (r: Result<
        (),
        Error,
    >)
        ensures
            old(self)@.create_subnet_allowed(caller) ==> {
                &&& r == Ok::<(), Error>(())
                &&& final(self)@ == old(self)@.create_subnet_next(caller, metadata@)
            },
            !old(self)@.create_subnet_allowed(caller) ==> {
                &&& r == Err::<(), Error>(Error::SubnetAlreadyExists)
                &&& final(self)@ == old(self)@
            },
    {
        if self.subnets.contains_key(&caller) {
            return Err(Error::SubnetAlreadyExists);
        }
        let stored = metadata.duplicate();
        self.subnets.insert(caller, stored);
        self.events.push(Event::SubnetCreated(caller, metadata));
        proof {
            let next = old(self)@.create_subnet_next(caller, metadata@);
            assert(self@.subnets =~= next.subnets);
            assert(self@.providers =~= next.providers);
            assert(self@.events =~= next.events);
        }
        Ok(())
    }

    /// Append `provider` to the provider list of `subnet_owner`.
    ///
    /// Any authenticated caller may register a provider against any existing
    /// subnet; `caller` need not equal `subnet_owner`. Succeeds if and only
    /// if `subnet_owner` has a subnet record; then the record is appended at
    /// the end of the owner's list, all earlier entries and all subnet
    /// records are unchanged, and exactly one
    /// `ProviderRegistered(caller, provider)` event — naming the caller, not
    /// the owner — is appended. On failure the call returns `SubnetNotFound`
    /// and changes nothing.
    pub fn register_provider(
        &mut self,
        caller: AccountId,
        subnet_owner: AccountId,
        provider: ProviderMetadata,
    ) -> (r: Result<(), Error>)
        ensures
            old(self)@.register_provider_allowed(subnet_owner) ==> {
                &&& r == Ok::<(), Error>(())
                &&& final(self)@ == old(self)@.register_provider_next(
                    caller,
                    subnet_owner,
                    provider@,
                )
            },
            !old(self)@.register_provider_allowed(subnet_owner) ==> {
                &&& r == Err::<(), Error>(Error::SubnetNotFound)
                &&& final(self)@ == old(self)@
            },
    {
        if !self.subnets.contains_key(&subnet_owner) {
            return Err(Error::SubnetNotFound);
        }
        let mut list: Vec<ProviderMetadata> = match self.providers.remove(&subnet_owner) {
            Some(existing) => existing,
            None => Vec::new(),
        };
        list.push(provider.duplicate());
        self.providers.insert(subnet_owner, list);
        self.events.push(Event::ProviderRegistered(caller, provider));
        proof {
            let next = old(self)@.register_provider_next(caller, subnet_owner, provider@);
            assert(provider_views(self.providers@[subnet_owner]@) =~= old(self)@.providers[
                subnet_owner].push(provider@));
            assert(self@.subnets =~= next.subnets);
            assert(self@.providers =~= next.providers);
            assert(self@.events =~= next.events);
        }
        Ok(())
    }

    /// The subnet record of `who`, or `None` if the account owns no subnet.
    pub fn subnets(&self, who: AccountId) -> (r: Option<&SubnetMetadata>)
        ensures
            match r {
                Some(m) => self@.subnets.contains_key(who) && m@ == self@.subnets[who],
                None => !self@.subnets.contains_key(who),
            },
    {
        self.subnets.get(&who)
    }

    /// The provider list of `who`, in registration order; empty if the
    /// account has no provider records.
    pub fn providers(&self, who: AccountId) -> (r: Vec<ProviderMetadata>)
        ensures
            provider_views(r@) == self@.providers[who],
    {
        match self.providers.get(&who) {
            Some(list) => duplicate_providers(list),
            None => {
                let r: Vec<ProviderMetadata> = Vec::new();
                proof {
                    assert(provider_views(r@) =~= self@.providers[who]);
                }
                r
            },
        }
    }

    /// The journal of emitted events, oldest first.
    pub fn events(&self) -> (r: &Vec<Event>)
        ensures
            event_views(r@) == self@.events,
    {
        &self.events
    }
}

/// Entry-for-entry copy of a provider list.
fn duplicate_providers(list: &Vec<ProviderMetadata>) -> (r: Vec<ProviderMetadata>)
    ensures
        provider_views(r@) == provider_views(list@),
{
    let mut r: Vec<ProviderMetadata> = Vec::new();
    let mut i: usize = 0;
    while i < list.len()
        invariant
            i <= list.len(),
            r@.len() == i,
            provider_views(r@) == provider_views(list@.take(i as int)),
        decreases list.len() - i,
    {
        let ghost prev = r@;
        let entry = list[i].duplicate();
        r.push(entry);
        proof {
            assert forall|j: int| 0 <= j < i + 1 implies provider_views(r@)[j] == provider_views(
                list@.take(i + 1),
            )[j] by {
                if j < i {
                    assert(r@[j] == prev[j]);
                    assert(provider_views(prev)[j] == provider_views(list@.take(i as int))[j]);
                } else {
                    assert(r@[j] == entry);
                }
            }
            assert(provider_views(r@) =~= provider_views(list@.take(i + 1)));
        }
        i = i + 1;
    }
    proof {
        assert(list@.take(list.len() as int) =~= list@);
    }
    r
}

} // verus!
