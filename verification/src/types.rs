//! Value types of the registry: account identifiers, the two metadata
//! records, the emitted events and the error taxonomy, each with a
//! mathematical view used by the contracts.

use vstd::prelude::*;

verus! {

/// Account identifier supplied by the host ledger. The registry uses it only
/// as an equality-comparable key and never interprets it.
pub type AccountId = u64;

/// Metadata describing a subnet. Every field is caller-supplied and stored
/// verbatim: the registry deliberately performs no range or content checks.
#[derive(PartialEq, Eq, Debug)]
pub struct SubnetMetadata {
    /// Title of the subnet.
    pub title: Vec<u8>,
    /// Introduction or description of the subnet.
    pub intro: Vec<u8>,
    /// Rewards allocation for the subnet.
    pub rewards_allocation: u32,
    /// Core performance metric.
    pub core_performance: u32,
    /// GPU network performance metric.
    pub gpunet_performance: u32,
    /// Additional opaque metadata.
    pub metadata: Vec<u8>,
}

/// Mathematical value of a [`SubnetMetadata`]: the byte fields as sequences.
pub ghost struct SubnetMetadataView {
    pub title: Seq<u8>,
    pub intro: Seq<u8>,
    pub rewards_allocation: u32,
    pub core_performance: u32,
    pub gpunet_performance: u32,
    pub metadata: Seq<u8>,
}

impl View for SubnetMetadata {
    type V = SubnetMetadataView;

    open spec fn view(&self) -> SubnetMetadataView {
        SubnetMetadataView {
            title: self.title@,
            intro: self.intro@,
            rewards_allocation: self.rewards_allocation,
            core_performance: self.core_performance,
            gpunet_performance: self.gpunet_performance,
            metadata: self.metadata@,
        }
    }
}

impl SubnetMetadata {
    /// An exact copy of the record; the contract pins the copy to the
    /// source record, field for field.
    pub fn duplicate(&self) -> (r: SubnetMetadata)
        ensures
            r@ == self@,
    {
        SubnetMetadata {
            title: clone_bytes(&self.title),
            intro: clone_bytes(&self.intro),
            rewards_allocation: self.rewards_allocation,
            core_performance: self.core_performance,
            gpunet_performance: self.gpunet_performance,
            metadata: clone_bytes(&self.metadata),
        }
    }
}

impl Default for SubnetMetadata {
    /// The all-empty record: empty byte fields, zero metrics.
    fn default() -> (r: SubnetMetadata)
        ensures
            r@ == (SubnetMetadataView {
                title: Seq::<u8>::empty(),
                intro: Seq::<u8>::empty(),
                rewards_allocation: 0u32,
                core_performance: 0u32,
                gpunet_performance: 0u32,
                metadata: Seq::<u8>::empty(),
            }),
    {
        SubnetMetadata {
            title: Vec::new(),
            intro: Vec::new(),
            rewards_allocation: 0,
            core_performance: 0,
            gpunet_performance: 0,
            metadata: Vec::new(),
        }
    }
}

/// Metadata describing a provider. Unvalidated, like [`SubnetMetadata`].
#[derive(PartialEq, Eq, Debug)]
pub struct ProviderMetadata {
    /// Name of the provider.
    pub name: Vec<u8>,
    /// Details about the resources provided.
    pub resource_details: Vec<u8>,
}

/// Mathematical value of a [`ProviderMetadata`].
pub ghost struct ProviderMetadataView {
    pub name: Seq<u8>,
    pub resource_details: Seq<u8>,
}

impl View for ProviderMetadata {
    type V = ProviderMetadataView;

    open spec fn view(&self) -> ProviderMetadataView {
        ProviderMetadataView { name: self.name@, resource_details: self.resource_details@ }
    }
}

impl ProviderMetadata {
    /// An exact copy of the record.
    pub fn duplicate(&self) -> (r: ProviderMetadata)
        ensures
            r@ == self@,
    {
        ProviderMetadata {
            name: clone_bytes(&self.name),
            resource_details: clone_bytes(&self.resource_details),
        }
    }
}

impl Default for ProviderMetadata {
    /// The all-empty record.
    fn default() -> (r: ProviderMetadata)
        ensures
            r@ == (ProviderMetadataView {
                name: Seq::<u8>::empty(),
                resource_details: Seq::<u8>::empty(),
            }),
    {
        ProviderMetadata { name: Vec::new(), resource_details: Vec::new() }
    }
}

/// Events emitted by the registry, in the order they happen.
#[derive(PartialEq, Eq, Debug)]
pub enum Event {
    /// A subnet was created: the owning account and the stored metadata.
    SubnetCreated(AccountId, SubnetMetadata),
    /// A provider was registered: the registering caller and the provider
    /// record. The subnet owner is not part of the payload; an observer must
    /// correlate it from the call itself.
    ProviderRegistered(AccountId, ProviderMetadata),
}

/// Mathematical value of an [`Event`].
pub ghost enum EventView {
    SubnetCreated(AccountId, SubnetMetadataView),
    ProviderRegistered(AccountId, ProviderMetadataView),
}

impl View for Event {
    type V = EventView;

    open spec fn view(&self) -> EventView {
        match self {
            Event::SubnetCreated(who, metadata) => EventView::SubnetCreated(*who, metadata@),
            Event::ProviderRegistered(who, provider) => EventView::ProviderRegistered(
                *who,
                provider@,
            ),
        }
    }
}

/// Errors returned by the registry's operations.
#[derive(Clone, Copy, PartialEq, Eq, Structural, Debug)]
pub enum Error {
    /// A subnet already exists for the calling account.
    SubnetAlreadyExists,
    /// Reserved error kind: declared by the interface, raised by no
    /// operation.
    ProviderAlreadyRegistered,
    /// The addressed subnet owner has no subnet record.
    SubnetNotFound,
}

/// Byte-for-byte copy of a byte vector.
fn clone_bytes(v: &Vec<u8>) -> (r: Vec<u8>)
    ensures
        r@ == v@,
{
    let mut r: Vec<u8> = Vec::new();
    let mut i: usize = 0;
    while i < v.len()
        invariant
            i <= v.len(),
            r@ == v@.take(i as int),
        decreases v.len() - i,
    {
        r.push(v[i]);
        proof {
            assert(v@.take(i + 1 as int) =~= v@.take(i as int).push(v@[i as int]));
        }
        i = i + 1;
    }
    proof {
        assert(v@.take(v.len() as int) =~= v@);
    }
    r
}

} // verus!
