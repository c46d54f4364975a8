//! The fixed, one-to-one binding between local assets and bridge-wide
//! resources.

use crate::types::{bytes32_eq, AssetId, ResourceId};
use vstd::prelude::*;

verus! {

/// No asset and no resource occurs in two pairs.
pub open spec fn one_to_one(pairs: Seq<(AssetId, ResourceId)>) -> bool {
    forall|i: int, j: int|
        0 <= i < j < pairs.len() ==> pairs[i].0 != pairs[j].0 && pairs[i].1 != pairs[j].1
}

/// Whether some pair binds `asset`.
pub open spec fn binds_asset(pairs: Seq<(AssetId, ResourceId)>, asset: AssetId) -> bool {
    exists|i: int| 0 <= i < pairs.len() && #[trigger] pairs[i].0 == asset
}

/// The resource of each bound asset.
pub open spec fn bindings_of(pairs: Seq<(AssetId, ResourceId)>) -> Map<AssetId, ResourceId> {
    Map::new(
        |asset: AssetId| binds_asset(pairs, asset),
        |asset: AssetId|
            pairs[choose|i: int| 0 <= i < pairs.len() && #[trigger] pairs[i].0 == asset].1,
    )
}

/// The resource bound to `asset`, if there is one.
pub open spec fn resource_of(bindings: Map<AssetId, ResourceId>, asset: AssetId) -> Option<
    ResourceId,
> {
    if bindings.contains_key(asset) {
        Some(bindings[asset])
    } else {
        None
    }
}

/// Whether some asset is bound to `resource`.
pub open spec fn binds_resource(bindings: Map<AssetId, ResourceId>, resource: ResourceId) -> bool {
    exists|asset: AssetId| #[trigger] bindings.contains_key(asset) && bindings[asset] == resource
}

/// The asset bound to `resource`, if there is one.
pub open spec fn asset_of(bindings: Map<AssetId, ResourceId>, resource: ResourceId) -> Option<
    AssetId,
> {
    if binds_resource(bindings, resource) {
        Some(
            choose|asset: AssetId| #[trigger]
                bindings.contains_key(asset) && bindings[asset] == resource,
        )
    } else {
        None
    }
}

/// No two assets are bound to one resource.
pub open spec fn injective(bindings: Map<AssetId, ResourceId>) -> bool {
    forall|a: AssetId, b: AssetId|
        #![trigger bindings.contains_key(a), bindings.contains_key(b)]
        bindings.contains_key(a) && bindings.contains_key(b) && bindings[a] == bindings[b] ==> a
            == b
}

/// In a one-to-one list, the pair at `i` is the binding of its asset.
pub proof fn lemma_pair_is_binding(pairs: Seq<(AssetId, ResourceId)>, i: int)
    requires
        one_to_one(pairs),
        0 <= i < pairs.len(),
    ensures
        bindings_of(pairs).contains_key(pairs[i].0),
        bindings_of(pairs)[pairs[i].0] == pairs[i].1,
{
    let asset = pairs[i].0;
    assert(binds_asset(pairs, asset));
    let k = choose|k: int| 0 <= k < pairs.len() && #[trigger] pairs[k].0 == asset;
    assert(k == i) by {
        if k < i {
            assert(pairs[k].0 != pairs[i].0);
        } else if i < k {
            assert(pairs[i].0 != pairs[k].0);
        }
    }
}

/// The bindings of a one-to-one list are injective.
pub proof fn lemma_bindings_injective(pairs: Seq<(AssetId, ResourceId)>)
    requires
        one_to_one(pairs),
    ensures
        injective(bindings_of(pairs)),
{
    let bindings = bindings_of(pairs);
    assert forall|a: AssetId, b: AssetId|
        #![trigger bindings.contains_key(a), bindings.contains_key(b)]
        bindings.contains_key(a) && bindings.contains_key(b) && bindings[a] == bindings[b] implies a
        == b by {
        let i = choose|i: int| 0 <= i < pairs.len() && #[trigger] pairs[i].0 == a;
        let j = choose|j: int| 0 <= j < pairs.len() && #[trigger] pairs[j].0 == b;
        lemma_pair_is_binding(pairs, i);
        lemma_pair_is_binding(pairs, j);
        if i < j {
            assert(pairs[i].1 != pairs[j].1);
        } else if j < i {
            assert(pairs[j].1 != pairs[i].1);
        }
    }
}

/// Under injective bindings the two lookups undo each other: an asset has a
/// resource exactly if that resource has the asset.
pub proof fn lemma_lookups_inverse(
    bindings: Map<AssetId, ResourceId>,
    asset: AssetId,
    resource: ResourceId,
)
    requires
        injective(bindings),
    ensures
        resource_of(bindings, asset) == Some(resource) <==> asset_of(bindings, resource) == Some(
            asset,
        ),
{
    if resource_of(bindings, asset) == Some(resource) {
        assert(bindings.contains_key(asset) && bindings[asset] == resource);
        assert(binds_resource(bindings, resource));
        let found = asset_of(bindings, resource)->0;
        assert(bindings.contains_key(found) && bindings.contains_key(asset));
    }
}

/// The binding between local assets and bridge-wide resources, fixed when
/// the bridge is configured: each asset has one resource, each resource one
/// asset.
pub struct ResourceRegistry {
    pairs: Vec<(AssetId, ResourceId)>,
}

impl View for ResourceRegistry {
    type V = Map<AssetId, ResourceId>;

    closed spec fn view(&self) -> Map<AssetId, ResourceId> {
        bindings_of(self.pairs@)
    }
}

impl ResourceRegistry {
    #[verifier::type_invariant]
    spec fn well_formed(&self) -> bool {
        one_to_one(self.pairs@)
    }

    /// Builds the registry of `pairs`, unless an asset or a resource occurs
    /// twice in them.
    pub fn new(pairs: Vec<(AssetId, ResourceId)>) -> (registry: Option<ResourceRegistry>)
        ensures
            registry is Some == one_to_one(pairs@),
            registry is Some ==> registry->0@ == bindings_of(pairs@),
            registry is Some ==> injective(registry->0@),
    {
        proof {
            if one_to_one(pairs@) {
                lemma_bindings_injective(pairs@);
            }
        }
        let n = pairs.len();
        let mut j: usize = 0;
        while j < n
            invariant
                n == pairs@.len(),
                j <= n,
                forall|a: int, b: int|
                    0 <= a < b < j ==> pairs@[a].0 != pairs@[b].0 && pairs@[a].1 != pairs@[b].1,
            decreases n - j,
        {
            let mut i: usize = 0;
            while i < j
                invariant
                    n == pairs@.len(),
                    j < n,
                    i <= j,
                    forall|a: int|
                        0 <= a < i ==> pairs@[a].0 != pairs@[j as int].0 && pairs@[a].1
                            != pairs@[j as int].1,
                decreases j - i,
            {
                if bytes32_eq(&pairs[i].0, &pairs[j].0) || bytes32_eq(&pairs[i].1, &pairs[j].1) {
                    return None;
                }
                i += 1;
            }
            j += 1;
        }
        Some(ResourceRegistry { pairs })
    }

    /// The resource bound to `asset`, if there is one.
    pub fn lookup(&self, asset: &AssetId) -> (resource: Option<ResourceId>)
        ensures
            resource == resource_of(self@, *asset),
            injective(self@),
    {
        proof {
            use_type_invariant(self);
            lemma_bindings_injective(self.pairs@);
        }
        let n = self.pairs.len();
        let mut i: usize = 0;
        while i < n
            invariant
                n == self.pairs@.len(),
                i <= n,
                one_to_one(self.pairs@),
                forall|a: int| 0 <= a < i ==> self.pairs@[a].0 != *asset,
            decreases n - i,
        {
            if bytes32_eq(&self.pairs[i].0, asset) {
                proof {
                    lemma_pair_is_binding(self.pairs@, i as int);
                }
                return Some(self.pairs[i].1);
            }
            i += 1;
        }
        None
    }

    /// The asset bound to `resource`, if there is one.
    pub fn reverse_lookup(&self, resource: &ResourceId) -> (asset: Option<AssetId>)
        ensures
            asset == asset_of(self@, *resource),
            injective(self@),
    {
        proof {
            use_type_invariant(self);
            lemma_bindings_injective(self.pairs@);
        }
        let n = self.pairs.len();
        let mut i: usize = 0;
        while i < n
            invariant
                n == self.pairs@.len(),
                i <= n,
                one_to_one(self.pairs@),
                injective(self@),
                forall|a: int| 0 <= a < i ==> self.pairs@[a].1 != *resource,
            decreases n - i,
        {
            if bytes32_eq(&self.pairs[i].1, resource) {
                proof {
                    lemma_pair_is_binding(self.pairs@, i as int);
                    let found = self.pairs@[i as int].0;
                    assert(self@.contains_key(found) && self@[found] == *resource);
                    assert(binds_resource(self@, *resource));
                }
                return Some(self.pairs[i].0);
            }
            i += 1;
        }
        proof {
            assert forall|a: AssetId| #[trigger]
                self@.contains_key(a) implies self@[a] != *resource by {
                let k = choose|k: int| 0 <= k < self.pairs@.len() && #[trigger] self.pairs@[k].0 == a;
                lemma_pair_is_binding(self.pairs@, k);
            }
        }
        None
    }
}

} // verus!
