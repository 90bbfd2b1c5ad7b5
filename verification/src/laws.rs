//! Laws of the registry, stated over [`RegistryView`] and proved once and
//! for all. Together with the contracts of [`crate::registry::Pallet`], they
//! pin down every observable consequence of a run of operations.

use vstd::prelude::*;

use crate::registry::RegistryView;
use crate::types::{AccountId, EventView, ProviderMetadataView, SubnetMetadataView};

verus! {

/// Law: subnet creation is unique per account. When an account may create a
/// subnet (it owns none), the creation succeeds; afterwards a second
/// creation by the same account is no longer allowed — by
/// [`crate::registry::Pallet::create_subnet`]'s contract it returns
/// `SubnetAlreadyExists` and changes nothing, whatever metadata it carries —
/// and the stored record remains the one from the first call.
pub proof fn lemma_create_subnet_unique(
    s: RegistryView,
    caller: AccountId,
    first: SubnetMetadataView,
)
    requires
        s.create_subnet_allowed(caller),
    ensures
        ({
            let t = s.create_subnet_next(caller, first);
            &&& !t.create_subnet_allowed(caller)
            &&& t.subnets[caller] == first
        }),
{
}

/// Law: provider registration is gated on subnet existence. For an account
/// without a subnet record, registration is not allowed — by
/// [`crate::registry::Pallet::register_provider`]'s contract the call
/// returns `SubnetNotFound` and leaves every provider list, the addressed
/// one included, unchanged.
pub proof fn lemma_register_provider_gated(s: RegistryView, subnet_owner: AccountId)
    requires
        !s.subnets.contains_key(subnet_owner),
    ensures
        !s.register_provider_allowed(subnet_owner),
{
}

/// The state after a run of successful provider registrations against
/// `subnet_owner`: the `n`th registration is made by `callers[n]` and
/// carries `providers[n]`.
pub open spec fn register_many(
    s: RegistryView,
    callers: Seq<AccountId>,
    subnet_owner: AccountId,
    providers: Seq<ProviderMetadataView>,
) -> RegistryView
    decreases providers.len(),
{
    if providers.len() == 0 {
        s
    } else {
        register_many(s, callers, subnet_owner, providers.drop_last()).register_provider_next(
            callers[providers.len() - 1],
            subnet_owner,
            providers.last(),
        )
    }
}

/// Law: appended in call order. Running any number of provider
/// registrations against an existing subnet owner is allowed at every step,
/// leaves every subnet record and every other provider list unchanged,
/// appends exactly the given records, in call order, to the owner's list,
/// and emits exactly one `ProviderRegistered` event per call, in call
/// order, each naming its caller and its record.
pub proof fn lemma_register_many_appends(
    s: RegistryView,
    callers: Seq<AccountId>,
    subnet_owner: AccountId,
    providers: Seq<ProviderMetadataView>,
)
    requires
        s.subnets.contains_key(subnet_owner),
        providers.len() <= callers.len(),
    ensures
        ({
            let t = register_many(s, callers, subnet_owner, providers);
            &&& t.subnets == s.subnets
            &&& t.providers[subnet_owner] == s.providers[subnet_owner] + providers
            &&& forall|a: AccountId|
                a != subnet_owner ==> #[trigger] t.providers[a] == s.providers[a]
            &&& t.events == s.events + Seq::new(
                providers.len(),
                (|i: int| EventView::ProviderRegistered(callers[i], providers[i])),
            )
            &&& forall|i: int|
                0 <= i <= providers.len() ==> #[trigger] register_many(
                    s,
                    callers,
                    subnet_owner,
                    providers.take(i),
                ).register_provider_allowed(subnet_owner)
        }),
    decreases providers.len(),
{
    let t = register_many(s, callers, subnet_owner, providers);
    let all_events = Seq::new(
        providers.len(),
        (|i: int| EventView::ProviderRegistered(callers[i], providers[i])),
    );
    if providers.len() == 0 {
        assert(t.providers[subnet_owner] =~= s.providers[subnet_owner] + providers);
        assert(t.events =~= s.events + all_events);
    } else {
        let shorter = providers.drop_last();
        lemma_register_many_appends(s, callers, subnet_owner, shorter);
        let t0 = register_many(s, callers, subnet_owner, shorter);
        assert(t.providers[subnet_owner] == t0.providers[subnet_owner].push(providers.last()));
        assert(t.providers[subnet_owner] =~= s.providers[subnet_owner] + providers);
        assert forall|a: AccountId|
            a != subnet_owner implies #[trigger] t.providers[a] == s.providers[a] by {
            assert(t.providers[a] == t0.providers[a]);
        }
        assert(t.events =~= s.events + all_events);
        assert forall|i: int| 0 <= i <= providers.len() implies #[trigger] register_many(
            s,
            callers,
            subnet_owner,
            providers.take(i),
        ).register_provider_allowed(subnet_owner) by {
            if i <= shorter.len() {
                assert(providers.take(i) =~= shorter.take(i));
                assert(register_many(
                    s,
                    callers,
                    subnet_owner,
                    shorter.take(i),
                ).register_provider_allowed(subnet_owner));
            } else {
                assert(providers.take(i) =~= providers);
            }
        }
    }
}

/// Law: a successful subnet creation emits exactly one event, a
/// `SubnetCreated` carrying the creating account and the stored metadata;
/// every earlier event is untouched.
pub proof fn lemma_create_subnet_event(
    s: RegistryView,
    caller: AccountId,
    metadata: SubnetMetadataView,
)
    ensures
        ({
            let t = s.create_subnet_next(caller, metadata);
            &&& t.events.len() == s.events.len() + 1
            &&& t.events.last() == EventView::SubnetCreated(caller, metadata)
            &&& t.events.take(s.events.len() as int) == s.events
        }),
{
    assert(s.create_subnet_next(caller, metadata).events.take(s.events.len() as int) =~= s.events);
}

/// Law: a successful provider registration emits exactly one event, a
/// `ProviderRegistered` carrying the registering caller — not the subnet
/// owner, which is absent from the payload — and the appended record; every
/// earlier event is untouched.
pub proof fn lemma_register_provider_event(
    s: RegistryView,
    caller: AccountId,
    subnet_owner: AccountId,
    provider: ProviderMetadataView,
)
    ensures
        ({
            let t = s.register_provider_next(caller, subnet_owner, provider);
            &&& t.events.len() == s.events.len() + 1
            &&& t.events.last() == EventView::ProviderRegistered(caller, provider)
            &&& t.events.take(s.events.len() as int) == s.events
        }),
{
    assert(s.register_provider_next(caller, subnet_owner, provider).events.take(
        s.events.len() as int,
    ) =~= s.events);
}

/// Law: a fresh registry has no orphan provider lists (it has none at all).
pub proof fn lemma_initial_no_orphans()
    ensures
        RegistryView::initial().no_orphan_providers(),
{
}

/// Law: subnet creation preserves the no-orphan invariant — it only adds a
/// subnet record and touches no provider list.
pub proof fn lemma_create_subnet_preserves_no_orphans(
    s: RegistryView,
    caller: AccountId,
    metadata: SubnetMetadataView,
)
    requires
        s.no_orphan_providers(),
    ensures
        s.create_subnet_next(caller, metadata).no_orphan_providers(),
{
    let t = s.create_subnet_next(caller, metadata);
    assert forall|a: AccountId| #[trigger] t.providers[a].len() > 0 implies t.subnets.contains_key(
        a,
    ) by {
        assert(s.providers[a].len() > 0);
    }
}

/// Law: provider registration preserves the no-orphan invariant — the
/// existence check admits appends only under accounts that own a subnet.
pub proof fn lemma_register_provider_preserves_no_orphans(
    s: RegistryView,
    caller: AccountId,
    subnet_owner: AccountId,
    provider: ProviderMetadataView,
)
    requires
        s.no_orphan_providers(),
        s.register_provider_allowed(subnet_owner),
    ensures
        s.register_provider_next(caller, subnet_owner, provider).no_orphan_providers(),
{
    let t = s.register_provider_next(caller, subnet_owner, provider);
    assert forall|a: AccountId| #[trigger] t.providers[a].len() > 0 implies t.subnets.contains_key(
        a,
    ) by {
        if a != subnet_owner {
            assert(t.providers[a] == s.providers[a]);
        }
    }
}

} // verus!
