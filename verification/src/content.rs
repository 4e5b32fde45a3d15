//! Content variants, media and namespaced extensions.

use vstd::prelude::*;

use crate::ids::{LocaleTag, MediaRef, NamespacedKey, ProviderId, VariantId, VoiceProfileRef};
use crate::json::clone_json;
use crate::text::{
    blank, char_is_white_space, copy_opt_string, copy_strings, chars_lt, chars_of, is_white_space, lemma_lex_irreflexive, lemma_lex_total,
    lemma_lex_transitive, lex_lt,
};

verus! {

broadcast use vstd::seq_lib::group_seq_properties;

/// Whether keys are in strictly increasing order, hence distinct.
pub open spec fn sorted_entries<V>(e: Seq<(Seq<char>, V)>) -> bool {
    forall|i: int, j: int| 0 <= i < j < e.len() ==> lex_lt(#[trigger] e[i].0, #[trigger] e[j].0)
}

/// Whether some entry has the key.
pub open spec fn has_key<V>(e: Seq<(Seq<char>, V)>, k: Seq<char>) -> bool {
    exists|i: int| 0 <= i < e.len() && #[trigger] e[i].0 == k
}

/// The value stored under a key, if any.
pub open spec fn lookup<V>(e: Seq<(Seq<char>, V)>, k: Seq<char>) -> Option<V>
    decreases e.len(),
{
    if e.len() == 0 {
        None
    } else if e.last().0 == k {
        Some(e.last().1)
    } else {
        lookup(e.drop_last(), k)
    }
}

/// In sorted entries, the value found under a key is the one at its index.
pub proof fn lemma_lookup_at<V>(e: Seq<(Seq<char>, V)>, i: int)
    requires
        sorted_entries(e),
        0 <= i < e.len(),
    ensures
        lookup(e, e[i].0) == Some(e[i].1),
    decreases e.len(),
{
    if i < e.len() - 1 {
        lemma_lex_irreflexive(e[i].0);
        assert(lex_lt(e[i].0, e[e.len() - 1].0));
        assert(e.drop_last()[i] == e[i]);
        lemma_lookup_at(e.drop_last(), i);
    }
}

/// A key no entry has is not found.
pub proof fn lemma_lookup_absent<V>(e: Seq<(Seq<char>, V)>, k: Seq<char>)
    requires
        !has_key(e, k),
    ensures
        lookup(e, k) is None,
    decreases e.len(),
{
    if e.len() > 0 {
        assert(e[e.len() - 1].0 != k);
        assert forall|i: int| 0 <= i < e.drop_last().len() implies #[trigger] e.drop_last()[i].0
            != k by {
            assert(e.drop_last()[i] == e[i]);
        }
        lemma_lookup_absent(e.drop_last(), k);
    }
}

/// The value of the last pair with the key, if any.
pub open spec fn last_value_for(pairs: Seq<(NamespacedKey, serde_json::Value)>, k: Seq<char>) -> Option<
    serde_json::Value,
>
    decreases pairs.len(),
{
    if pairs.len() == 0 {
        None
    } else if pairs.last().0@ == k {
        Some(pairs.last().1)
    } else {
        last_value_for(pairs.drop_last(), k)
    }
}

/// Deterministically ordered, namespaced extension values.
#[derive(Debug)]
pub struct Extensions {
    entries: Vec<(NamespacedKey, serde_json::Value)>,
}

impl View for Extensions {
    type V = Seq<(Seq<char>, serde_json::Value)>;

    closed spec fn view(&self) -> Seq<(Seq<char>, serde_json::Value)> {
        self.entries@.map_values(|e: (NamespacedKey, serde_json::Value)| (e.0@, e.1))
    }
}

impl Clone for Extensions {
    fn clone(&self) -> (r: Self)
        ensures
            r@ == self@,
    {
        let mut entries: Vec<(NamespacedKey, serde_json::Value)> = Vec::new();
        let mut i: usize = 0;
        while i < self.entries.len()
            invariant
                0 <= i <= self.entries.len(),
                entries@.len() == i,
                forall|j: int|
                    0 <= j < i ==> (#[trigger] entries@[j]).0@ == self.entries@[j].0@
                        && entries@[j].1 == self.entries@[j].1,
            decreases self.entries.len() - i,
        {
            let key = self.entries[i].0.clone();
            let value = clone_json(&self.entries[i].1);
            entries.push((key, value));
            i = i + 1;
        }
        let r = Extensions { entries };
        assert(r@ =~= self@);
        r
    }
}

impl Extensions {
    /// Whether the entries are in strictly increasing key order.
    pub open spec fn wf(&self) -> bool {
        sorted_entries(self@)
    }

    /// Creates an empty extension map.
    pub fn new() -> (r: Self)
        ensures
            r@ == Seq::<(Seq<char>, serde_json::Value)>::empty(),
            r.wf(),
    {
        let r = Extensions { entries: Vec::new() };
        assert(r@ =~= Seq::<(Seq<char>, serde_json::Value)>::empty());
        r
    }

    /// Number of entries.
    pub fn len(&self) -> (r: usize)
        ensures
            r == self@.len(),
    {
        self.entries.len()
    }

    /// Returns whether the map is empty.
    pub fn is_empty(&self) -> (r: bool)
        ensures
            r == (self@.len() == 0),
    {
        self.entries.len() == 0
    }

    /// The key of the entry at a position in key order.
    pub fn key_at(&self, i: usize) -> (r: &NamespacedKey)
        requires
            i < self@.len(),
        ensures
            r@ == self@[i as int].0,
    {
        &self.entries[i].0
    }

    /// The value of the entry at a position in key order.
    pub fn value_at(&self, i: usize) -> (r: &serde_json::Value)
        requires
            i < self@.len(),
        ensures
            *r == self@[i as int].1,
    {
        &self.entries[i].1
    }

    /// Returns the value stored under a key.
    pub fn get(&self, key: &NamespacedKey) -> (r: Option<&serde_json::Value>)
        requires
            self.wf(),
        ensures
            match lookup(self@, key@) {
                Some(v) => r matches Some(x) && *x == v,
                None => r is None,
            },
    {
        let k = chars_of(key.as_str());
        let mut i: usize = 0;
        while i < self.entries.len()
            invariant
                self.wf(),
                k@ == key@,
                0 <= i <= self.entries.len(),
                forall|j: int| 0 <= j < i ==> self@[j].0 != key@,
            decreases self.entries.len() - i,
        {
            if self.entries[i].0.same(key) {
                proof {
                    lemma_lookup_at(self@, i as int);
                }
                return Some(&self.entries[i].1);
            }
            i = i + 1;
        }
        proof {
            lemma_lookup_absent(self@, key@);
        }
        None
    }

    /// The entries in key order.
    pub fn iter(&self) -> (r: Vec<(&NamespacedKey, &serde_json::Value)>)
        ensures
            r@.len() == self@.len(),
            forall|i: int| 0 <= i < r@.len() ==> (#[trigger] r@[i]).0@ == self@[i].0 && *r@[i].1 == self@[i].1,
    {
        let mut r: Vec<(&NamespacedKey, &serde_json::Value)> = Vec::new();
        let mut i: usize = 0;
        while i < self.entries.len()
            invariant
                i <= self.entries.len(),
                r@.len() == i,
                forall|j: int| 0 <= j < i ==> (#[trigger] r@[j]).0@ == self@[j].0 && *r@[j].1 == self@[j].1,
            decreases self.entries.len() - i,
        {
            let entry = &self.entries[i];
            r.push((&entry.0, &entry.1));
            i = i + 1;
        }
        r
    }

    /// Builds a map from pairs, inserting them in order; a later pair with the
    /// same key replaces an earlier one.
    pub fn from_pairs(pairs: Vec<(NamespacedKey, serde_json::Value)>) -> (r: Self)
        ensures
            r.wf(),
            forall|k: Seq<char>| #[trigger] lookup(r@, k) == last_value_for(pairs@, k),
    {
        let mut r = Extensions::new();
        let mut rest = pairs;
        let ghost all = rest@;
        let ghost mut i: int = 0;
        assert(all.skip(0) =~= all);
        while rest.len() > 0
            invariant
                r.wf(),
                0 <= i <= all.len(),
                rest@ == all.skip(i),
                forall|k: Seq<char>| #[trigger] lookup(r@, k) == last_value_for(all.take(i), k),
            decreases rest.len(),
        {
            let (k, v) = rest.remove(0);
            proof {
                assert(all.take(i + 1).drop_last() =~= all.take(i));
                assert(all.take(i + 1).last() == all[i]);
                assert(rest@ =~= all.skip(i + 1));
            }
            r.insert(k, v);
            proof {
                i = i + 1;
            }
        }
        assert(all.take(i) =~= all);
        r
    }

    /// Inserts a value and returns the previous value, if any. Entries stay
    /// in key order.
    pub fn insert(&mut self, key: NamespacedKey, value: serde_json::Value) -> (r: Option<
        serde_json::Value,
    >)
        requires
            old(self).wf(),
        ensures
            final(self).wf(),
            r == lookup(old(self)@, key@),
            lookup(final(self)@, key@) == Some(value),
            forall|k: Seq<char>| k != key@ ==> lookup(final(self)@, k) == lookup(old(self)@, k),
    {
        let ghost old_e = self@;
        let ghost kv = key@;
        let k = chars_of(key.as_str());
        let mut p: usize = 0;
        while p < self.entries.len()
            invariant
                self@ == old_e,
                sorted_entries(old_e),
                k@ == kv,
                0 <= p <= self.entries.len(),
                forall|j: int| 0 <= j < p ==> lex_lt(#[trigger] old_e[j].0, kv),
            ensures
                self@ == old_e,
                0 <= p <= self.entries.len(),
                forall|j: int| 0 <= j < p ==> lex_lt(#[trigger] old_e[j].0, kv),
                p < self.entries.len() ==> !lex_lt(old_e[p as int].0, kv),
            decreases self.entries.len() - p,
        {
            let here = chars_of(self.entries[p].0.as_str());
            if !chars_lt(&here, &k) {
                break;
            }
            p = p + 1;
        }
        let found = p < self.entries.len() && self.entries[p].0.same(&key);
        if found {
            let old_entry = self.entries.remove(p);
            self.entries.insert(p, (key, value));
            proof {
                assert(self@ =~= old_e.update(p as int, (kv, value)));
                assert(old_e[p as int].0 == kv);
                lemma_lookup_at(old_e, p as int);
                lemma_lookup_at(self@, p as int);
                assert forall|k2: Seq<char>| k2 != kv implies lookup(self@, k2) == lookup(old_e, k2) by {
                    if has_key(old_e, k2) {
                        let i = choose|i: int| 0 <= i < old_e.len() && #[trigger] old_e[i].0 == k2;
                        lemma_lookup_at(old_e, i);
                        lemma_lookup_at(self@, i);
                    } else {
                        if has_key(self@, k2) {
                            let i = choose|i: int| 0 <= i < self@.len() && #[trigger] self@[i].0 == k2;
                            assert(old_e[i].0 == k2);
                        }
                        lemma_lookup_absent(old_e, k2);
                        lemma_lookup_absent(self@, k2);
                    }
                }
            }
            Some(old_entry.1)
        } else {
            self.entries.insert(p, (key, value));
            proof {
                let new_e = self@;
                assert(new_e =~= old_e.insert(p as int, (kv, value)));
                // every key from position p on is above the new key
                assert forall|j: int| p <= j < old_e.len() implies lex_lt(kv, #[trigger] old_e[j].0) by {
                    lemma_lex_total(old_e[p as int].0, kv);
                    if j > p {
                        lemma_lex_transitive(kv, old_e[p as int].0, old_e[j].0);
                    }
                }
                assert(sorted_entries(new_e)) by {
                    assert forall|i: int, j: int| 0 <= i < j < new_e.len() implies lex_lt(
                        #[trigger] new_e[i].0,
                        #[trigger] new_e[j].0,
                    ) by {
                        if j < p {
                        } else if j == p {
                        } else if i < p {
                            lemma_lex_transitive(old_e[i].0, kv, old_e[j - 1].0);
                        } else if i == p {
                        } else {
                        }
                    }
                }
                assert(!has_key(old_e, kv)) by {
                    if has_key(old_e, kv) {
                        let i = choose|i: int| 0 <= i < old_e.len() && #[trigger] old_e[i].0 == kv;
                        lemma_lex_irreflexive(kv);
                        if i < p {
                        } else {
                        }
                    }
                }
                lemma_lookup_at(new_e, p as int);
                lemma_lookup_absent(old_e, kv);
                assert forall|k2: Seq<char>| k2 != kv implies lookup(new_e, k2) == lookup(old_e, k2) by {
                    if has_key(old_e, k2) {
                        let i = choose|i: int| 0 <= i < old_e.len() && #[trigger] old_e[i].0 == k2;
                        lemma_lookup_at(old_e, i);
                        if i < p {
                            lemma_lookup_at(new_e, i);
                        } else {
                            assert(new_e[i + 1] == old_e[i]);
                            lemma_lookup_at(new_e, i + 1);
                        }
                    } else {
                        if has_key(new_e, k2) {
                            let i = choose|i: int| 0 <= i < new_e.len() && #[trigger] new_e[i].0 == k2;
                            if i < p {
                                assert(old_e[i].0 == k2);
                            } else if i > p {
                                assert(old_e[i - 1].0 == k2);
                            }
                        }
                        lemma_lookup_absent(old_e, k2);
                        lemma_lookup_absent(new_e, k2);
                    }
                }
            }
            None
        }
    }
}


/// Optional audience metadata, independent from locale and voice.
#[derive(Debug, PartialEq, Eq)]
pub struct Audience {
    /// ISO 3166-1 alpha-2 country code when geographic targeting matters.
    pub country: Option<String>,
    /// Human-readable region or subdivision.
    pub region: Option<String>,
    /// Human-readable city.
    pub city: Option<String>,
    /// Product-owned audience segment reference.
    pub segment: Option<String>,
}

impl Clone for Audience {
    fn clone(&self) -> (r: Self)
        ensures
            r == *self,
    {
        Audience {
            country: copy_opt_string(&self.country),
            region: copy_opt_string(&self.region),
            city: copy_opt_string(&self.city),
            segment: copy_opt_string(&self.segment),
        }
    }
}

/// Origin of an explicit content variant.
#[derive(Clone, Copy, Debug, PartialEq, Eq, Structural)]
pub enum ProvenanceKind {
    /// Written or approved directly by a person.
    Human,
    /// Imported without semantic transformation.
    Import,
    /// Produced by a deterministic transformation.
    DeterministicTransform,
    /// Produced by an AI system and made explicit before delivery.
    Ai,
}

/// Provenance metadata carried with a variant.
#[derive(Debug, PartialEq, Eq)]
pub struct Provenance {
    /// How the variant was produced.
    pub kind: ProvenanceKind,
    /// Optional producer reference, such as a user or model profile.
    pub producer: Option<String>,
    /// Opaque references to source facts or content.
    pub source_refs: Vec<String>,
}

impl Clone for Provenance {
    fn clone(&self) -> (r: Self)
        ensures
            r.kind == self.kind,
            r.producer == self.producer,
            r.source_refs@ == self.source_refs@,
    {
        Provenance {
            kind: self.kind,
            producer: copy_opt_string(&self.producer),
            source_refs: copy_strings(&self.source_refs),
        }
    }
}

/// Provider-neutral media kind.
#[derive(Clone, Copy, Debug, PartialEq, Eq, Structural)]
pub enum MediaKind {
    /// Still image.
    Image,
    /// Video asset.
    Video,
    /// Audio asset.
    Audio,
    /// Document or other downloadable file.
    Document,
}

/// Media reference and metadata; the bytes are resolved outside Prism.
#[derive(Debug)]
pub struct Media {
    /// Opaque media reference.
    pub reference: MediaRef,
    /// Semantic media kind.
    pub kind: MediaKind,
    /// Optional trusted MIME type hint.
    pub mime_type: Option<String>,
    /// Accessibility text that must not be silently discarded.
    pub alt_text: Option<String>,
    /// Namespaced media metadata.
    pub extensions: Extensions,
}

/// Whether two media items carry the same reference, kind, texts and
/// metadata.
pub open spec fn same_media(a: Media, b: Media) -> bool {
    &&& a.reference == b.reference
    &&& a.kind == b.kind
    &&& a.mime_type == b.mime_type
    &&& a.alt_text == b.alt_text
    &&& a.extensions@ == b.extensions@
}

impl Clone for Media {
    fn clone(&self) -> (r: Self)
        ensures
            same_media(r, *self),
    {
        Media {
            reference: self.reference.clone(),
            kind: self.kind,
            mime_type: copy_opt_string(&self.mime_type),
            alt_text: copy_opt_string(&self.alt_text),
            extensions: self.extensions.clone(),
        }
    }
}

/// Shared publication surface. Provider-only surfaces use namespaced extensions
/// until they prove portable.
#[derive(Clone, Copy, Debug, PartialEq, Eq, Structural)]
pub enum PublicationFormat {
    /// Standard feed or channel post.
    Post,
    /// Ephemeral story-like surface.
    Story,
    /// Short-form video surface.
    ShortVideo,
    /// Native poll surface.
    Poll,
}

/// Text and media delivered as one variant.
#[derive(Debug)]
pub struct ContentBody {
    /// Explicit text. `None` differs from an invalid empty string.
    pub text: Option<String>,
    /// Ordered media items.
    pub media: Vec<Media>,
}

/// Whether two bodies carry the same text and the same media in order.
pub open spec fn same_body(a: ContentBody, b: ContentBody) -> bool {
    &&& a.text == b.text
    &&& a.media@.len() == b.media@.len()
    &&& forall|k: int| 0 <= k < a.media@.len() ==> same_media(#[trigger] a.media@[k], b.media@[k])
}

impl Clone for ContentBody {
    fn clone(&self) -> (r: Self)
        ensures
            same_body(r, *self),
    {
        let mut media: Vec<Media> = Vec::new();
        let mut i: usize = 0;
        while i < self.media.len()
            invariant
                i <= self.media.len(),
                media@.len() == i,
                forall|k: int| 0 <= k < i ==> same_media(#[trigger] media@[k], self.media@[k]),
            decreases self.media.len() - i,
        {
            media.push(self.media[i].clone());
            i = i + 1;
        }
        ContentBody { text: copy_opt_string(&self.text), media }
    }
}

/// Whether a body has neither meaningful text nor media.
pub open spec fn body_is_empty(text: Option<String>, media_count: nat) -> bool {
    (match text {
        None => true,
        Some(t) => blank(t@),
    }) && media_count == 0
}

/// Unicode scalar values in the body's text; zero without text.
pub open spec fn text_count(text: Option<String>) -> nat {
    match text {
        None => 0,
        Some(t) => t@.len(),
    }
}

/// Whether every character is white space.
pub fn is_blank(t: &str) -> (r: bool)
    ensures
        r == blank(t@),
{
    let chars = chars_of(t);
    let mut i: usize = 0;
    while i < chars.len()
        invariant
            chars@ == t@,
            0 <= i <= chars.len(),
            forall|j: int| 0 <= j < i ==> is_white_space(#[trigger] chars@[j]),
        decreases chars.len() - i,
    {
        if !char_is_white_space(chars[i]) {
            assert(!is_white_space(t@[i as int]));
            return false;
        }
        i = i + 1;
    }
    true
}

impl ContentBody {
    /// Returns whether the body has neither meaningful text nor media.
    pub fn is_empty(&self) -> (r: bool)
        ensures
            r == body_is_empty(self.text, self.media@.len()),
    {
        let text_blank = match &self.text {
            None => true,
            Some(t) => is_blank(t.as_str()),
        };
        text_blank && self.media.len() == 0
    }

    /// Counts Unicode scalar values rather than UTF-8 bytes.
    pub fn text_character_count(&self) -> (r: usize)
        ensures
            r == text_count(self.text),
    {
        match &self.text {
            None => 0,
            Some(t) => chars_of(t.as_str()).len(),
        }
    }
}

/// Explicit delivery candidate across independent localization dimensions.
#[derive(Debug)]
pub struct ContentVariant {
    /// Request-local identifier.
    pub id: VariantId,
    /// BCP-47 content locale.
    pub locale: LocaleTag,
    /// Optional voice/style profile, independent from locale.
    pub voice_profile: Option<VoiceProfileRef>,
    /// Optional audience metadata, independent from locale.
    pub audience: Option<Audience>,
    /// Optional provider restriction for a provider-native variant.
    pub provider_target: Option<ProviderId>,
    /// Publication surface.
    pub format: PublicationFormat,
    /// Explicit content.
    pub body: ContentBody,
    /// Variant origin.
    pub provenance: Provenance,
    /// Namespaced content metadata.
    pub extensions: Extensions,
}

/// Whether two variants state the same delivery candidate.
pub open spec fn same_variant(a: ContentVariant, b: ContentVariant) -> bool {
    &&& a.id == b.id
    &&& a.locale == b.locale
    &&& a.voice_profile == b.voice_profile
    &&& a.audience == b.audience
    &&& a.provider_target == b.provider_target
    &&& a.format == b.format
    &&& same_body(a.body, b.body)
    &&& a.provenance.kind == b.provenance.kind
    &&& a.provenance.producer == b.provenance.producer
    &&& a.provenance.source_refs@ == b.provenance.source_refs@
    &&& a.extensions@ == b.extensions@
}

impl Clone for ContentVariant {
    fn clone(&self) -> (r: Self)
        ensures
            same_variant(r, *self),
    {
        ContentVariant {
            id: self.id.clone(),
            locale: self.locale.clone(),
            voice_profile: match &self.voice_profile {
                Some(v) => Some(v.clone()),
                None => None,
            },
            audience: match &self.audience {
                Some(a) => Some(a.clone()),
                None => None,
            },
            provider_target: match &self.provider_target {
                Some(p) => Some(p.clone()),
                None => None,
            },
            format: self.format,
            body: self.body.clone(),
            provenance: self.provenance.clone(),
            extensions: self.extensions.clone(),
        }
    }
}

/// Whether a variant with the given provider restriction may go to a provider.
pub open spec fn eligible_for(provider_target: Option<ProviderId>, provider: Seq<char>) -> bool {
    match provider_target {
        None => true,
        Some(t) => t@ == provider,
    }
}

impl ContentVariant {
    /// Returns whether the variant is eligible for a provider target.
    pub fn supports_provider(&self, provider: &ProviderId) -> (r: bool)
        ensures
            r == eligible_for(self.provider_target, provider@),
    {
        match &self.provider_target {
            None => true,
            Some(target) => target.same(provider),
        }
    }
}

} // verus!
