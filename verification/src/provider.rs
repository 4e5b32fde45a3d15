//! Provider-facing requests and the deterministically ordered provider registry.

use vstd::prelude::*;

use crate::content::{
    ContentVariant, Extensions, has_key, lemma_lookup_absent, lemma_lookup_at, lookup,
    sorted_entries,
};
use crate::ids::{ChannelRef, CredentialRef, ProviderId, RequestId};
use crate::request::{IdempotencyScope, PublishTarget};
use crate::text::{chars_lt, chars_of, lemma_lex_irreflexive, lemma_lex_total, lemma_lex_transitive, lex_lt};

verus! {

broadcast use vstd::seq_lib::group_seq_properties;

/// Fully resolved, owned input passed to one provider adapter.
#[derive(Clone, Debug)]
pub struct ProviderPublishRequest {
    /// Correlation identifier for observability.
    pub request_id: RequestId,
    /// Stable logical publication and target idempotency material.
    pub idempotency: IdempotencyScope,
    /// Provider target including opaque channel and credential references.
    pub target: PublishTarget,
    /// Explicit selected variant.
    pub variant: ContentVariant,
}

/// Provider/channel context used for capability discovery.
#[derive(Clone, Debug)]
pub struct ProviderTargetContext {
    /// Provider adapter identifier.
    pub provider_id: ProviderId,
    /// Opaque configured channel reference.
    pub channel: ChannelRef,
    /// Optional credential reference.
    pub credential: Option<CredentialRef>,
    /// Provider-scoped options that may affect capabilities.
    pub options: Extensions,
}

impl ProviderTargetContext {
    /// The context of a publish target.
    pub fn from_target(target: &PublishTarget) -> (r: Self)
        ensures
            r.provider_id == target.provider_id,
            r.channel == target.channel,
            r.credential == target.credential,
            r.options@ == target.options@,
    {
        ProviderTargetContext {
            provider_id: target.provider_id.clone(),
            channel: target.channel.clone(),
            credential: match &target.credential {
                Some(c) => Some(c.clone()),
                None => None,
            },
            options: target.options.clone(),
        }
    }
}

/// Provider registry mutation failure.
#[derive(Clone, Debug, PartialEq, Eq)]
pub enum RegistryError {
    /// The identifier is already registered.
    Duplicate(ProviderId),
}

impl RegistryError {
    /// The error's text: ``provider `{id}` is already registered``.
    pub fn message(&self) -> (r: String)
        ensures
            match self {
                RegistryError::Duplicate(id) => r@ == "provider `"@ + id@ + "` is already registered"@,
            },
    {
        match self {
            RegistryError::Duplicate(id) => {
                let mut s = crate::text::owned("provider `");
                crate::text::push_str(&mut s, id.as_str());
                crate::text::push_str(&mut s, "` is already registered");
                s
            },
        }
    }
}

/// Deterministically ordered provider registry: each provider identifier maps
/// to one adapter, and identifiers are kept in increasing order.
pub struct ProviderRegistry<A> {
    providers: Vec<(ProviderId, A)>,
}

impl<A> View for ProviderRegistry<A> {
    type V = Seq<(Seq<char>, A)>;

    closed spec fn view(&self) -> Seq<(Seq<char>, A)> {
        self.providers@.map_values(|e: (ProviderId, A)| (e.0@, e.1))
    }
}

impl<A> ProviderRegistry<A> {
    /// Whether identifiers are strictly increasing, hence distinct.
    pub open spec fn wf(&self) -> bool {
        sorted_entries(self@)
    }

    /// Creates an empty registry.
    pub fn new() -> (r: Self)
        ensures
            r.wf(),
            r@.len() == 0,
    {
        let r = ProviderRegistry { providers: Vec::new() };
        assert(r@ =~= Seq::<(Seq<char>, A)>::empty());
        r
    }

    fn position(&self, provider_id: &ProviderId) -> (r: usize)
        requires
            self.wf(),
        ensures
            r <= self@.len(),
            forall|j: int| 0 <= j < r ==> lex_lt(#[trigger] self@[j].0, provider_id@),
            r < self@.len() ==> !lex_lt(self@[r as int].0, provider_id@),
    {
        let k = chars_of(provider_id.as_str());
        let mut p: usize = 0;
        while p < self.providers.len()
            invariant
                k@ == provider_id@,
                0 <= p <= self.providers.len(),
                forall|j: int| 0 <= j < p ==> lex_lt(#[trigger] self@[j].0, provider_id@),
            ensures
                0 <= p <= self.providers.len(),
                forall|j: int| 0 <= j < p ==> lex_lt(#[trigger] self@[j].0, provider_id@),
                p < self.providers.len() ==> !lex_lt(self@[p as int].0, provider_id@),
            decreases self.providers.len() - p,
        {
            let here = chars_of(self.providers[p].0.as_str());
            if !chars_lt(&here, &k) {
                break;
            }
            p = p + 1;
        }
        p
    }

    /// Whether an adapter is registered under the identifier.
    pub fn contains(&self, provider_id: &ProviderId) -> (r: bool)
        requires
            self.wf(),
        ensures
            r == has_key(self@, provider_id@),
    {
        let p = self.position(provider_id);
        let found = p < self.providers.len() && self.providers[p].0.same(provider_id);
        proof {
            if !found && has_key(self@, provider_id@) {
                let i = choose|i: int| 0 <= i < self@.len() && #[trigger] self@[i].0 == provider_id@;
                lemma_lex_irreflexive(provider_id@);
                if i > p {
                    lemma_lex_total(self@[p as int].0, provider_id@);
                }
            }
        }
        found
    }

    /// Registers an adapter, rejecting accidental replacement.
    pub fn register(&mut self, provider_id: ProviderId, provider: A) -> (r: Result<(), RegistryError>)
        requires
            old(self).wf(),
        ensures
            final(self).wf(),
            has_key(old(self)@, provider_id@) ==> (r matches Err(RegistryError::Duplicate(id))
                && id == provider_id && final(self)@ == old(self)@),
            !has_key(old(self)@, provider_id@) ==> r is Ok && lookup(final(self)@, provider_id@)
                == Some(provider) && forall|k: Seq<char>|
                k != provider_id@ ==> lookup(final(self)@, k) == lookup(old(self)@, k),
            !has_key(old(self)@, provider_id@) ==> final(self)@.len() == old(self)@.len() + 1
                && (exists|p: int| 0 <= p <= old(self)@.len() && final(self)@ == old(self)@.insert(
                p,
                (provider_id@, provider),
            )) && forall|k: Seq<char>|
                has_key(final(self)@, k) <==> (has_key(old(self)@, k) || k == provider_id@),
    {
        if self.contains(&provider_id) {
            return Err(RegistryError::Duplicate(provider_id));
        }
        let ghost old_e = self@;
        let ghost kv = provider_id@;
        let p = self.position(&provider_id);
        self.providers.insert(p, (provider_id, provider));
        proof {
            let new_e = self@;
            assert(new_e =~= old_e.insert(p as int, (kv, provider)));
            assert forall|j: int| p <= j < old_e.len() implies lex_lt(kv, #[trigger] old_e[j].0) by {
                if old_e[p as int].0 == kv {
                    assert(has_key(old_e, kv));
                }
                lemma_lex_total(old_e[p as int].0, kv);
                if j > p {
                    lemma_lex_transitive(kv, old_e[p as int].0, old_e[j].0);
                }
            }
            assert(sorted_entries(new_e)) by {
                assert forall|i: int, j: int| 0 <= i < j < new_e.len() implies lex_lt(
                    #[trigger] new_e[i].0,
                    #[trigger] new_e[j].0,
                ) by {
                    if j < p {
                    } else if j == p {
                    } else if i < p {
                        lemma_lex_transitive(old_e[i].0, kv, old_e[j - 1].0);
                    } else if i == p {
                    } else {
                    }
                }
            }
            lemma_lookup_at(new_e, p as int);
            assert forall|k2: Seq<char>| has_key(new_e, k2) <==> (has_key(old_e, k2) || k2 == kv) by {
                if has_key(old_e, k2) {
                    let i = choose|i: int| 0 <= i < old_e.len() && #[trigger] old_e[i].0 == k2;
                    if i < p {
                        assert(new_e[i].0 == k2);
                    } else {
                        assert(new_e[i + 1].0 == k2);
                    }
                }
                if k2 == kv {
                    assert(new_e[p as int].0 == k2);
                }
                if has_key(new_e, k2) {
                    let i = choose|i: int| 0 <= i < new_e.len() && #[trigger] new_e[i].0 == k2;
                    if i < p {
                        assert(old_e[i].0 == k2);
                    } else if i > p {
                        assert(old_e[i - 1].0 == k2);
                    }
                }
            }
            assert forall|k2: Seq<char>| k2 != kv implies lookup(new_e, k2) == lookup(old_e, k2) by {
                if has_key(old_e, k2) {
                    let i = choose|i: int| 0 <= i < old_e.len() && #[trigger] old_e[i].0 == k2;
                    lemma_lookup_at(old_e, i);
                    if i < p {
                        lemma_lookup_at(new_e, i);
                    } else {
                        assert(new_e[i + 1] == old_e[i]);
                        lemma_lookup_at(new_e, i + 1);
                    }
                } else {
                    if has_key(new_e, k2) {
                        let i = choose|i: int| 0 <= i < new_e.len() && #[trigger] new_e[i].0 == k2;
                        if i < p {
                            assert(old_e[i].0 == k2);
                        } else if i > p {
                            assert(old_e[i - 1].0 == k2);
                        }
                    }
                    lemma_lookup_absent(old_e, k2);
                    lemma_lookup_absent(new_e, k2);
                }
            }
        }
        Ok(())
    }

    /// Returns the adapter registered under the identifier.
    pub fn get(&self, provider_id: &ProviderId) -> (r: Option<&A>)
        requires
            self.wf(),
        ensures
            match lookup(self@, provider_id@) {
                Some(a) => r matches Some(x) && *x == a,
                None => r is None,
            },
    {
        let mut i: usize = 0;
        while i < self.providers.len()
            invariant
                self.wf(),
                0 <= i <= self.providers.len(),
                forall|j: int| 0 <= j < i ==> self@[j].0 != provider_id@,
            decreases self.providers.len() - i,
        {
            if self.providers[i].0.same(provider_id) {
                proof {
                    lemma_lookup_at(self@, i as int);
                }
                return Some(&self.providers[i].1);
            }
            i = i + 1;
        }
        proof {
            lemma_lookup_absent(self@, provider_id@);
        }
        None
    }

    /// Returns registered identifiers in stable increasing order.
    pub fn provider_ids(&self) -> (r: Vec<ProviderId>)
        requires
            self.wf(),
        ensures
            r@.len() == self@.len(),
            forall|i: int| 0 <= i < r@.len() ==> (#[trigger] r@[i])@ == self@[i].0,
            forall|i: int, j: int| 0 <= i < j < r@.len() ==> lex_lt((#[trigger] r@[i])@, (#[trigger] r@[j])@),
    {
        let mut r: Vec<ProviderId> = Vec::new();
        let mut i: usize = 0;
        while i < self.providers.len()
            invariant
                0 <= i <= self.providers.len(),
                r@.len() == i,
                forall|j: int| 0 <= j < i ==> (#[trigger] r@[j])@ == self@[j].0,
            decreases self.providers.len() - i,
        {
            r.push(self.providers[i].0.clone());
            i = i + 1;
        }
        r
    }

    /// Returns whether the registry has no adapters.
    pub fn is_empty(&self) -> (r: bool)
        ensures
            r == (self@.len() == 0),
    {
        self.providers.len() == 0
    }
}

} // verus!
