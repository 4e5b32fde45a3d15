//! Publish requests, deterministic variant selection and structural rules.

use vstd::prelude::*;

use crate::capabilities::issue_if;
use crate::content::{
    Audience, ContentVariant, Extensions, Media, body_is_empty, eligible_for, is_blank,
};
use crate::ids::{
    ChannelRef, CredentialRef, IdempotencyKey, ProviderId, TargetId, VariantId, scoped_to,
    secret_bearing,
};
use crate::text::{
    blank, chars_of, decimal, is_ascii_upper, owned, push_char, push_decimal, push_str,
    utf8_len,
};
use crate::validation::{
    IssueView, ValidationIssue, error_issue, issue_views, lemma_raises_concat, lemma_raises_single, raises,
};

verus! {

broadcast use vstd::seq_lib::group_seq_properties;

/// Behavior when one or more targets fail preflight validation.
#[derive(Clone, Copy, Debug, PartialEq, Eq, Structural)]
pub enum DispatchPolicy {
    /// Perform no external action unless every target passes preflight.
    RequireAllValid,
    /// Dispatch each valid target independently.
    Independent,
}

/// The policy a request has when it names none.
pub fn default_dispatch_policy() -> (r: DispatchPolicy)
    ensures
        r == DispatchPolicy::RequireAllValid,
{
    DispatchPolicy::RequireAllValid
}

/// Explicit deterministic selection of a variant for one target.
#[derive(Debug, PartialEq, Eq)]
pub enum VariantSelection {
    /// Select exactly one variant.
    Exact {
        /// Required variant identifier.
        variant_id: VariantId,
    },
    /// Select the first existing, provider-compatible variant in order.
    Ordered {
        /// Candidate identifiers from highest to lowest priority.
        variant_ids: Vec<VariantId>,
    },
}

/// Whether two selections choose the same way among the same candidates.
pub open spec fn same_selection(a: VariantSelection, b: VariantSelection) -> bool {
    match (a, b) {
        (VariantSelection::Exact { variant_id: x }, VariantSelection::Exact { variant_id: y }) => x == y,
        (VariantSelection::Ordered { variant_ids: x }, VariantSelection::Ordered { variant_ids: y }) => x@ == y@,
        _ => false,
    }
}

impl Clone for VariantSelection {
    fn clone(&self) -> (r: Self)
        ensures
            same_selection(r, *self),
    {
        match self {
            VariantSelection::Exact { variant_id } => VariantSelection::Exact { variant_id: variant_id.clone() },
            VariantSelection::Ordered { variant_ids } => {
                let mut ids: Vec<VariantId> = Vec::new();
                let mut i: usize = 0;
                while i < variant_ids.len()
                    invariant
                        i <= variant_ids.len(),
                        ids@ == variant_ids@.subrange(0, i as int),
                    decreases variant_ids.len() - i,
                {
                    ids.push(variant_ids[i].clone());
                    i = i + 1;
                }
                assert(ids@ =~= variant_ids@);
                VariantSelection::Ordered { variant_ids: ids }
            },
        }
    }
}

/// The identifiers of a list of variant IDs.
pub open spec fn id_views(ids: Seq<VariantId>) -> Seq<Seq<char>> {
    ids.map_values(|i: VariantId| i@)
}

/// Candidate identifiers in priority order.
pub open spec fn candidate_ids(s: VariantSelection) -> Seq<Seq<char>> {
    match s {
        VariantSelection::Exact { variant_id } => seq![variant_id@],
        VariantSelection::Ordered { variant_ids } => id_views(variant_ids@),
    }
}

impl VariantSelection {
    /// Returns candidates in deterministic priority order.
    pub fn candidates(&self) -> (r: Vec<VariantId>)
        ensures
            id_views(r@) == candidate_ids(*self),
    {
        match self {
            VariantSelection::Exact { variant_id } => {
                let r = vec![variant_id.clone()];
                assert(id_views(r@) =~= candidate_ids(*self));
                r
            },
            VariantSelection::Ordered { variant_ids } => {
                let r = variant_ids.clone();
                assert(id_views(r@) =~= candidate_ids(*self));
                r
            },
        }
    }
}

/// One configured provider destination and its explicit variant selection.
#[derive(Debug)]
pub struct PublishTarget {
    /// Request-local target identifier.
    pub id: TargetId,
    /// Provider adapter identifier.
    pub provider_id: ProviderId,
    /// Opaque configured channel reference.
    pub channel: ChannelRef,
    /// Optional credential reference resolved inside the adapter boundary.
    pub credential: Option<CredentialRef>,
    /// Deterministic content variant selection.
    pub selection: VariantSelection,
    /// Provider-scoped options; raw credentials are prohibited.
    pub options: Extensions,
}

/// Whether two targets name the same target, provider, channel, credential,
/// selection and options.
pub open spec fn same_target(a: PublishTarget, b: PublishTarget) -> bool {
    &&& a.id == b.id
    &&& a.provider_id == b.provider_id
    &&& a.channel == b.channel
    &&& a.credential == b.credential
    &&& same_selection(a.selection, b.selection)
    &&& a.options@ == b.options@
}

impl Clone for PublishTarget {
    fn clone(&self) -> (r: Self)
        ensures
            same_target(r, *self),
    {
        PublishTarget {
            id: self.id.clone(),
            provider_id: self.provider_id.clone(),
            channel: self.channel.clone(),
            credential: match &self.credential {
                Some(c) => Some(c.clone()),
                None => None,
            },
            selection: self.selection.clone(),
            options: self.options.clone(),
        }
    }
}

/// Immutable input for validation or publication.
#[derive(Clone, Debug)]
pub struct PublishRequest {
    /// Caller-owned key for one logical multi-target publication.
    pub idempotency_key: IdempotencyKey,
    /// Explicit partial-publication behavior.
    pub dispatch_policy: DispatchPolicy,
    /// Explicit localized variants.
    pub variants: Vec<ContentVariant>,
    /// Ordered provider targets. Outcome order follows this order.
    pub targets: Vec<PublishTarget>,
}

/// Stable target-scoped idempotency material passed to an adapter.
#[derive(Clone, Debug, PartialEq, Eq)]
pub struct IdempotencyScope {
    /// Logical publication key.
    pub root: IdempotencyKey,
    /// Target within the publication.
    pub target_id: TargetId,
}

/// How one character of an identifier is written in idempotency material:
/// a backslash as `\\`, a colon as `\c`, any other character as itself.
pub open spec fn escape_char(c: char) -> Seq<char> {
    if c == '\\' {
        seq!['\\', '\\']
    } else if c == ':' {
        seq!['\\', 'c']
    } else {
        seq![c]
    }
}

/// An identifier written with every character escaped.
pub open spec fn escaped(s: Seq<char>) -> Seq<char>
    decreases s.len(),
{
    if s.len() == 0 {
        Seq::empty()
    } else {
        escape_char(s[0]) + escaped(s.drop_first())
    }
}

/// The stable string `{root}:{target_id}`, each part escaped so that the
/// separating colon is the only colon.
pub open spec fn scope_string(root: Seq<char>, target_id: Seq<char>) -> Seq<char> {
    escaped(root) + ":"@ + escaped(target_id)
}

proof fn lemma_escaped_append(a: Seq<char>, b: Seq<char>)
    ensures
        escaped(a + b) == escaped(a) + escaped(b),
    decreases a.len(),
{
    if a.len() == 0 {
        assert(a + b =~= b);
    } else {
        assert((a + b).drop_first() =~= a.drop_first() + b);
        lemma_escaped_append(a.drop_first(), b);
    }
}

proof fn lemma_escaped_single(c: char)
    ensures
        escaped(seq![c]) == escape_char(c),
{
    assert(seq![c].drop_first() =~= Seq::<char>::empty());
    assert(escaped(Seq::<char>::empty()) =~= Seq::<char>::empty());
    assert(escaped(seq![c]) =~= escape_char(c) + escaped(Seq::<char>::empty()));
}

proof fn lemma_escaped_shape(s: Seq<char>)
    ensures
        escaped(s).len() >= s.len(),
        forall|i: int| 0 <= i < escaped(s).len() ==> escaped(s)[i] != ':',
    decreases s.len(),
{
    if s.len() > 0 {
        lemma_escaped_shape(s.drop_first());
        let e = escape_char(s[0]);
        let rest = escaped(s.drop_first());
        assert forall|i: int| 0 <= i < escaped(s).len() implies escaped(s)[i] != ':' by {
            if i < e.len() {
                assert(escaped(s)[i] == e[i]);
            } else {
                assert(escaped(s)[i] == rest[i - e.len()]);
            }
        }
    }
}

proof fn lemma_escaped_injective(a: Seq<char>, b: Seq<char>)
    requires
        escaped(a) == escaped(b),
    ensures
        a == b,
    decreases a.len(),
{
    lemma_escaped_shape(a);
    lemma_escaped_shape(b);
    if a.len() == 0 {
        assert(b.len() == 0);
        assert(a =~= b);
    } else {
        assert(b.len() > 0);
        let x = escaped(a);
        let ea = escape_char(a[0]);
        let eb = escape_char(b[0]);
        assert(x == ea + escaped(a.drop_first()));
        assert(x == eb + escaped(b.drop_first()));
        assert(x[0] == ea[0]);
        assert(x[0] == eb[0]);
        if ea.len() == 2 {
            assert(x[1] == ea[1]);
            assert(eb.len() == 2);
            assert(x[1] == eb[1]);
        }
        assert(a[0] == b[0]);
        assert(escaped(a.drop_first()) =~= x.subrange(ea.len() as int, x.len() as int));
        assert(escaped(b.drop_first()) =~= x.subrange(eb.len() as int, x.len() as int));
        lemma_escaped_injective(a.drop_first(), b.drop_first());
        assert(a =~= seq![a[0]] + a.drop_first());
        assert(b =~= seq![b[0]] + b.drop_first());
    }
}

/// Appends an identifier, escaped.
fn push_escaped(s: &mut String, t: &str)
    ensures
        final(s)@ == old(s)@ + escaped(t@),
{
    let chars = chars_of(t);
    let mut i: usize = 0;
    assert(chars@.take(0) =~= Seq::<char>::empty());
    while i < chars.len()
        invariant
            chars@ == t@,
            i <= chars.len(),
            s@ == old(s)@ + escaped(chars@.take(i as int)),
        decreases chars.len() - i,
    {
        let c = chars[i];
        if c == '\\' {
            push_char(s, '\\');
            push_char(s, '\\');
        } else if c == ':' {
            push_char(s, '\\');
            push_char(s, 'c');
        } else {
            push_char(s, c);
        }
        proof {
            assert(chars@.take(i + 1) =~= chars@.take(i as int) + seq![c]);
            lemma_escaped_append(chars@.take(i as int), seq![c]);
            lemma_escaped_single(c);
            assert(s@ =~= old(s)@ + escaped(chars@.take(i + 1)));
        }
        i = i + 1;
    }
    assert(chars@.take(chars@.len() as int) =~= chars@);
}

impl IdempotencyScope {
    /// Returns a stable string. Adapters may hash or map it to provider limits.
    pub fn stable_string(&self) -> (r: String)
        ensures
            r@ == scope_string(self.root@, self.target_id@),
    {
        let mut s = owned("");
        push_escaped(&mut s, self.root.as_str());
        push_str(&mut s, ":");
        push_escaped(&mut s, self.target_id.as_str());
        proof {
            reveal_strlit("");
        }
        assert(s@ =~= scope_string(self.root@, self.target_id@));
        s
    }
}

/// Target idempotency material does not collide: two scopes give the same
/// stable string only when they have the same publication key and the same
/// target.
pub proof fn lemma_scope_string_injective(a: IdempotencyScope, b: IdempotencyScope)
    requires
        scope_string(a.root@, a.target_id@) == scope_string(b.root@, b.target_id@),
    ensures
        a.root@ == b.root@,
        a.target_id@ == b.target_id@,
{
    reveal_strlit(":");
    let (r1, t1, r2, t2) = (escaped(a.root@), escaped(a.target_id@), escaped(b.root@), escaped(b.target_id@));
    lemma_escaped_shape(a.root@);
    lemma_escaped_shape(b.root@);
    let s = scope_string(a.root@, a.target_id@);
    assert(s == r1 + ":"@ + t1);
    assert(s == r2 + ":"@ + t2);
    assert(s[r1.len() as int] == ':');
    assert(s[r2.len() as int] == ':');
    if r1.len() < r2.len() {
        assert(s[r1.len() as int] == r2[r1.len() as int]);
    } else if r2.len() < r1.len() {
        assert(s[r2.len() as int] == r1[r2.len() as int]);
    }
    assert(r1.len() == r2.len());
    assert(r1 =~= s.subrange(0, r1.len() as int));
    assert(r2 =~= s.subrange(0, r2.len() as int));
    assert(t1 =~= s.subrange((r1.len() + 1) as int, s.len() as int));
    assert(t2 =~= s.subrange((r2.len() + 1) as int, s.len() as int));
    lemma_escaped_injective(a.root@, b.root@);
    lemma_escaped_injective(a.target_id@, b.target_id@);
}

/// Index of the first variant with the identifier, or the number of variants
/// when none has it.
pub open spec fn first_with_id(vs: Seq<ContentVariant>, id: Seq<char>) -> int
    decreases vs.len(),
{
    if vs.len() == 0 {
        0
    } else if vs[0].id@ == id {
        0
    } else {
        1 + first_with_id(vs.drop_first(), id)
    }
}

/// The index of the variant a selection resolves to for a provider: for the
/// candidates in order, the first variant with the candidate's identifier,
/// taken if it may go to the provider.
pub open spec fn resolved_index(vs: Seq<ContentVariant>, cands: Seq<Seq<char>>, provider: Seq<char>) -> Option<int>
    decreases cands.len(),
{
    if cands.len() == 0 {
        None
    } else {
        let i = first_with_id(vs, cands[0]);
        if i < vs.len() && eligible_for(vs[i].provider_target, provider) {
            Some(i)
        } else {
            resolved_index(vs, cands.drop_first(), provider)
        }
    }
}

pub proof fn lemma_first_with_id(vs: Seq<ContentVariant>, id: Seq<char>)
    ensures
        0 <= first_with_id(vs, id) <= vs.len(),
        first_with_id(vs, id) < vs.len() ==> vs[first_with_id(vs, id)].id@ == id,
        forall|j: int| 0 <= j < first_with_id(vs, id) ==> vs[j].id@ != id,
    decreases vs.len(),
{
    if vs.len() > 0 && vs[0].id@ != id {
        lemma_first_with_id(vs.drop_first(), id);
        assert forall|j: int| 0 <= j < first_with_id(vs, id) implies vs[j].id@ != id by {
            if j > 0 {
                assert(vs[j] == vs.drop_first()[j - 1]);
            }
        }
    }
}

pub proof fn lemma_resolved_index(vs: Seq<ContentVariant>, cands: Seq<Seq<char>>, provider: Seq<char>)
    ensures
        resolved_index(vs, cands, provider) matches Some(i) ==> 0 <= i < vs.len(),
    decreases cands.len(),
{
    if cands.len() > 0 {
        lemma_first_with_id(vs, cands[0]);
        lemma_resolved_index(vs, cands.drop_first(), provider);
    }
}

/// Whether the candidate at position `c` names a variant that may go to the
/// provider: the first variant with that identifier exists and is eligible.
pub open spec fn candidate_usable(vs: Seq<ContentVariant>, cands: Seq<Seq<char>>, c: int, provider: Seq<char>) -> bool {
    let i = first_with_id(vs, cands[c]);
    i < vs.len() && eligible_for(vs[i].provider_target, provider)
}

/// Fallback is explicit: a selection resolves to a variant that carries one
/// of its candidate identifiers and may go to the provider, and every
/// candidate of higher priority names no such variant; with no usable
/// candidate it resolves to nothing. No other variant is ever chosen.
pub proof fn lemma_selection_is_explicit(vs: Seq<ContentVariant>, cands: Seq<Seq<char>>, provider: Seq<char>)
    ensures
        resolved_index(vs, cands, provider) matches Some(i) ==> exists|c: int|
            0 <= c < cands.len() && vs[i].id@ == cands[c] && #[trigger] candidate_usable(vs, cands, c, provider)
                && first_with_id(vs, cands[c]) == i && eligible_for(vs[i].provider_target, provider)
                && forall|d: int| 0 <= d < c ==> !candidate_usable(vs, cands, d, provider),
        resolved_index(vs, cands, provider) is None ==> forall|c: int|
            0 <= c < cands.len() ==> !#[trigger] candidate_usable(vs, cands, c, provider),
    decreases cands.len(),
{
    if cands.len() > 0 {
        lemma_first_with_id(vs, cands[0]);
        let rest = cands.drop_first();
        lemma_selection_is_explicit(vs, rest, provider);
        assert forall|c: int| 0 < c < cands.len() implies candidate_usable(vs, cands, c, provider)
            == candidate_usable(vs, rest, c - 1, provider) by {
            assert(cands[c] == rest[c - 1]);
        }
        if candidate_usable(vs, cands, 0, provider) {
            assert(resolved_index(vs, cands, provider) == Some(first_with_id(vs, cands[0])));
        } else {
            if let Some(i) = resolved_index(vs, rest, provider) {
                let c2 = choose|c: int|
                    0 <= c < rest.len() && vs[i].id@ == rest[c] && #[trigger] candidate_usable(vs, rest, c, provider)
                        && first_with_id(vs, rest[c]) == i && eligible_for(vs[i].provider_target, provider)
                        && forall|d: int| 0 <= d < c ==> !candidate_usable(vs, rest, d, provider);
                assert(candidate_usable(vs, cands, c2 + 1, provider));
                assert forall|d: int| 0 <= d < c2 + 1 implies !candidate_usable(vs, cands, d, provider) by {
                    if d > 0 {
                        assert(!candidate_usable(vs, rest, d - 1, provider));
                    }
                }
            }
        }
    }
}

/// The issue for a target whose selection resolves to nothing.
pub open spec fn no_eligible_issue(target_id: Seq<char>) -> IssueView {
    error_issue(
        "selection.no_eligible_variant"@,
        "/targets/"@ + target_id + "/selection"@,
        "selection contains no existing variant eligible for this provider"@,
    )
}

/// The issue for a target whose selection resolves to no variant.
pub(crate) fn no_eligible_variant(target: &PublishTarget) -> (r: ValidationIssue)
    ensures
        r@ == no_eligible_issue(target.id@),
{
    let mut p = owned("/targets/");
    push_str(&mut p, target.id.as_str());
    push_str(&mut p, "/selection");
    ValidationIssue::error(
        "selection.no_eligible_variant",
        p.as_str(),
        "selection contains no existing variant eligible for this provider",
    )
}

/// The issue for a secret-bearing extension key.
pub open spec fn secret_issue(path: Seq<char>, key: Seq<char>) -> IssueView {
    error_issue(
        "extension.secret_prohibited"@,
        path + "/"@ + key,
        "raw credentials and secret-bearing fields are prohibited in extensions"@,
    )
}

/// Issues for the secret-bearing keys among the entries, in key order.
pub open spec fn secret_issues(e: Seq<(Seq<char>, serde_json::Value)>, path: Seq<char>) -> Seq<IssueView>
    decreases e.len(),
{
    if e.len() == 0 {
        Seq::empty()
    } else {
        secret_issues(e.drop_last(), path) + issue_if(
            secret_bearing(e.last().0),
            secret_issue(path, e.last().0),
        )
    }
}

/// Issues for option keys outside the provider namespace, in key order.
pub open spec fn namespace_issues(e: Seq<(Seq<char>, serde_json::Value)>, provider: Seq<char>, path: Seq<char>) -> Seq<IssueView>
    decreases e.len(),
{
    if e.len() == 0 {
        Seq::empty()
    } else {
        namespace_issues(e.drop_last(), provider, path) + issue_if(
            !scoped_to(e.last().0, provider),
            error_issue(
                "target.option.namespace_mismatch"@,
                path + "/options/"@ + e.last().0,
                "provider options must use the target provider namespace"@,
            ),
        )
    }
}

/// Whether a country code is two uppercase ASCII letters (two bytes).
pub open spec fn valid_country(c: Seq<char>) -> bool {
    utf8_len(c) == 2 && forall|i: int| 0 <= i < c.len() ==> is_ascii_upper(#[trigger] c[i])
}

/// The issue for an audience value that is present but blank.
pub open spec fn blank_audience_issue(value: Option<String>, path: Seq<char>, field: Seq<char>) -> Seq<IssueView> {
    issue_if(
        value matches Some(v) && blank(v@),
        error_issue(
            "audience.value.empty"@,
            path + "/audience/"@ + field,
            "audience values must not be empty or whitespace-only"@,
        ),
    )
}

/// Issues for a variant's audience.
pub open spec fn audience_issues(a: Option<Audience>, path: Seq<char>) -> Seq<IssueView> {
    match a {
        None => Seq::empty(),
        Some(a) => (match a.country {
            None => Seq::empty(),
            Some(c) => issue_if(
                !valid_country(c@),
                error_issue(
                    "audience.country.invalid"@,
                    path + "/audience/country"@,
                    "country must be an ISO 3166-1 alpha-2 uppercase code"@,
                ),
            ),
        }) + blank_audience_issue(a.region, path, "region"@) + blank_audience_issue(
            a.city,
            path,
            "city"@,
        ) + blank_audience_issue(a.segment, path, "segment"@),
    }
}

/// Whether an earlier media item in the list has the same reference.
pub open spec fn earlier_media_ref(media: Seq<Media>, i: int) -> bool {
    exists|j: int| 0 <= j < i && (#[trigger] media[j]).reference@ == media[i].reference@
}

/// Issues for one media item of variant `path`.
pub open spec fn media_item_structure_issues(media: Seq<Media>, i: int, path: Seq<char>) -> Seq<IssueView> {
    let mp = path + "/body/media/"@ + decimal(i as nat);
    issue_if(
        earlier_media_ref(media, i),
        error_issue(
            "content.media_ref.duplicate"@,
            mp + "/ref"@,
            "media references must be unique within a variant"@,
        ),
    ) + secret_issues(media[i].extensions@, mp + "/extensions"@)
}

/// Issues for the first `n` media items of variant `path`.
pub open spec fn media_structure_issues(media: Seq<Media>, n: int, path: Seq<char>) -> Seq<IssueView>
    decreases n,
{
    if n <= 0 {
        Seq::empty()
    } else {
        media_structure_issues(media, n - 1, path) + media_item_structure_issues(media, n - 1, path)
    }
}

/// Whether an earlier variant in the list has the same identifier.
pub open spec fn earlier_variant_id(vs: Seq<ContentVariant>, i: int) -> bool {
    exists|j: int| 0 <= j < i && (#[trigger] vs[j]).id@ == vs[i].id@
}

/// Issues for variant `i` of the request.
pub open spec fn variant_structure_issues(vs: Seq<ContentVariant>, i: int) -> Seq<IssueView> {
    let v = vs[i];
    let path = "/variants/"@ + decimal(i as nat);
    issue_if(
        earlier_variant_id(vs, i),
        error_issue(
            "request.variant_id.duplicate"@,
            path + "/id"@,
            "variant IDs must be unique within a request"@,
        ),
    ) + issue_if(
        body_is_empty(v.body.text, v.body.media@.len()),
        error_issue(
            "content.empty"@,
            path + "/body"@,
            "a variant must contain meaningful text or media"@,
        ),
    ) + issue_if(
        v.body.text matches Some(t) && blank(t@),
        error_issue(
            "content.text.empty"@,
            path + "/body/text"@,
            "explicit text must not be empty or whitespace-only"@,
        ),
    ) + media_structure_issues(v.body.media@, v.body.media@.len() as int, path) + secret_issues(
        v.extensions@,
        path + "/extensions"@,
    ) + audience_issues(v.audience, path)
}

/// Issues for the first `n` variants.
pub open spec fn variants_structure_issues(vs: Seq<ContentVariant>, n: int) -> Seq<IssueView>
    decreases n,
{
    if n <= 0 {
        Seq::empty()
    } else {
        variants_structure_issues(vs, n - 1) + variant_structure_issues(vs, n - 1)
    }
}

/// Whether a list of identifiers repeats one.
pub open spec fn repeats_id(ids: Seq<VariantId>) -> bool {
    exists|i: int, j: int| 0 <= i < j < ids.len() && (#[trigger] ids[i])@ == (#[trigger] ids[j])@
}

/// Issues of an ordered selection at target `path`.
pub open spec fn selection_issues(s: VariantSelection, path: Seq<char>) -> Seq<IssueView> {
    match s {
        VariantSelection::Exact { .. } => Seq::empty(),
        VariantSelection::Ordered { variant_ids } => issue_if(
            variant_ids@.len() == 0,
            error_issue(
                "selection.candidates.empty"@,
                path + "/selection/variant_ids"@,
                "ordered selection requires at least one candidate"@,
            ),
        ) + issue_if(
            repeats_id(variant_ids@),
            error_issue(
                "selection.candidates.duplicate"@,
                path + "/selection/variant_ids"@,
                "ordered selection candidates must be unique"@,
            ),
        ),
    }
}

/// Whether an earlier target in the list has the same identifier.
pub open spec fn earlier_target_id(ts: Seq<PublishTarget>, i: int) -> bool {
    exists|j: int| 0 <= j < i && (#[trigger] ts[j]).id@ == ts[i].id@
}

/// Issues for target `i` of the request.
pub open spec fn target_structure_issues(r: PublishRequest, i: int) -> Seq<IssueView> {
    let t = r.targets@[i];
    let path = "/targets/"@ + decimal(i as nat);
    issue_if(
        earlier_target_id(r.targets@, i),
        error_issue(
            "request.target_id.duplicate"@,
            path + "/id"@,
            "target IDs must be unique within a request"@,
        ),
    ) + selection_issues(t.selection, path) + namespace_issues(
        t.options@,
        t.provider_id@,
        path,
    ) + secret_issues(t.options@, path + "/options"@) + match resolved_index(
        r.variants@,
        candidate_ids(t.selection),
        t.provider_id@,
    ) {
        Some(_) => Seq::empty(),
        None => seq![no_eligible_issue(t.id@)],
    }
}

/// Issues for the first `n` targets.
pub open spec fn targets_structure_issues(r: PublishRequest, n: int) -> Seq<IssueView>
    decreases n,
{
    if n <= 0 {
        Seq::empty()
    } else {
        targets_structure_issues(r, n - 1) + target_structure_issues(r, n - 1)
    }
}

/// Every request-local issue, in the order the request is read.
pub open spec fn structure_issues(r: PublishRequest) -> Seq<IssueView> {
    issue_if(
        r.variants@.len() == 0,
        error_issue(
            "request.variants.empty"@,
            "/variants"@,
            "at least one content variant is required"@,
        ),
    ) + issue_if(
        r.targets@.len() == 0,
        error_issue(
            "request.targets.empty"@,
            "/targets"@,
            "at least one publish target is required"@,
        ),
    ) + variants_structure_issues(r.variants@, r.variants@.len() as int) + targets_structure_issues(
        r,
        r.targets@.len() as int,
    )
}

proof fn lemma_targets_issues_include(r: PublishRequest, n: int, i: int, code: Seq<char>, path: Seq<char>)
    requires
        0 <= i < n,
        raises(target_structure_issues(r, i), code, path),
    ensures
        raises(targets_structure_issues(r, n), code, path),
    decreases n,
{
    if i < n - 1 {
        lemma_targets_issues_include(r, n - 1, i, code, path);
    }
    lemma_raises_concat(targets_structure_issues(r, n - 1), target_structure_issues(r, n - 1), code, path);
}

proof fn lemma_secret_issues_include(e: Seq<(Seq<char>, serde_json::Value)>, path: Seq<char>, k: int)
    requires
        0 <= k < e.len(),
        secret_bearing(e[k].0),
    ensures
        raises(secret_issues(e, path), "extension.secret_prohibited"@, path + "/"@ + e[k].0),
    decreases e.len(),
{
    let code = "extension.secret_prohibited"@;
    let at = path + "/"@ + e[k].0;
    if k < e.len() - 1 {
        assert(e.drop_last()[k] == e[k]);
        lemma_secret_issues_include(e.drop_last(), path, k);
    } else {
        let last = issue_if(secret_bearing(e.last().0), secret_issue(path, e.last().0));
        lemma_raises_single(last[0], code, at);
        assert(last == seq![last[0]]);
    }
    lemma_raises_concat(
        secret_issues(e.drop_last(), path),
        issue_if(secret_bearing(e.last().0), secret_issue(path, e.last().0)),
        code,
        at,
    );
}

/// A target option whose key is secret-bearing makes the request
/// structurally invalid: its issues hold `extension.secret_prohibited` at
/// that option.
pub proof fn lemma_secret_options_raise(r: PublishRequest, i: int, k: int)
    requires
        0 <= i < r.targets@.len(),
        0 <= k < r.targets@[i].options@.len(),
        secret_bearing(r.targets@[i].options@[k].0),
    ensures
        raises(
            structure_issues(r),
            "extension.secret_prohibited"@,
            "/targets/"@ + decimal(i as nat) + "/options/"@ + r.targets@[i].options@[k].0,
        ),
{
    let t = r.targets@[i];
    let path = "/targets/"@ + decimal(i as nat);
    let code = "extension.secret_prohibited"@;
    let key = t.options@[k].0;
    let at = path + "/options"@ + "/"@ + key;
    assert(at == "/targets/"@ + decimal(i as nat) + "/options/"@ + key) by {
        reveal_strlit("/options");
        reveal_strlit("/");
        reveal_strlit("/options/");
        assert(path + "/options"@ + "/"@ + key =~= "/targets/"@ + decimal(i as nat) + "/options/"@ + key);
    }
    lemma_secret_issues_include(t.options@, path + "/options"@, k);
    let dup = issue_if(
        earlier_target_id(r.targets@, i),
        error_issue("request.target_id.duplicate"@, path + "/id"@, "target IDs must be unique within a request"@),
    );
    let sel = selection_issues(t.selection, path);
    let ns = namespace_issues(t.options@, t.provider_id@, path);
    let sec = secret_issues(t.options@, path + "/options"@);
    let res = match resolved_index(r.variants@, candidate_ids(t.selection), t.provider_id@) {
        Some(_) => Seq::<IssueView>::empty(),
        None => seq![no_eligible_issue(t.id@)],
    };
    assert(target_structure_issues(r, i) == dup + sel + ns + sec + res);
    lemma_raises_concat(dup + sel + ns, sec, code, at);
    lemma_raises_concat(dup + sel + ns + sec, res, code, at);
    lemma_targets_issues_include(r, r.targets@.len() as int, i, code, at);
    let head = issue_if(
        r.variants@.len() == 0,
        error_issue("request.variants.empty"@, "/variants"@, "at least one content variant is required"@),
    ) + issue_if(
        r.targets@.len() == 0,
        error_issue("request.targets.empty"@, "/targets"@, "at least one publish target is required"@),
    ) + variants_structure_issues(r.variants@, r.variants@.len() as int);
    assert(structure_issues(r) == head + targets_structure_issues(r, r.targets@.len() as int));
    lemma_raises_concat(head, targets_structure_issues(r, r.targets@.len() as int), code, at);
}

/// A target whose ordered selection names the same variant at two positions
/// makes the request structurally invalid: its issues hold
/// `selection.candidates.duplicate` at the target's candidate list.
pub proof fn lemma_duplicate_candidates_raise(r: PublishRequest, i: int, a: int, b: int)
    requires
        0 <= i < r.targets@.len(),
        r.targets@[i].selection matches VariantSelection::Ordered { variant_ids } && 0 <= a < b
            < variant_ids@.len() && variant_ids@[a]@ == variant_ids@[b]@,
    ensures
        raises(
            structure_issues(r),
            "selection.candidates.duplicate"@,
            "/targets/"@ + decimal(i as nat) + "/selection/variant_ids"@,
        ),
{
    let t = r.targets@[i];
    let path = "/targets/"@ + decimal(i as nat);
    let code = "selection.candidates.duplicate"@;
    let at = path + "/selection/variant_ids"@;
    let ids = t.selection->Ordered_variant_ids@;
    assert(repeats_id(ids)) by {
        assert(0 <= a < b < ids.len() && (ids[a])@ == (ids[b])@);
    }
    let e = issue_if(
        ids.len() == 0,
        error_issue(
            "selection.candidates.empty"@,
            path + "/selection/variant_ids"@,
            "ordered selection requires at least one candidate"@,
        ),
    );
    let d = issue_if(
        repeats_id(ids),
        error_issue(
            "selection.candidates.duplicate"@,
            path + "/selection/variant_ids"@,
            "ordered selection candidates must be unique"@,
        ),
    );
    assert(selection_issues(t.selection, path) == e + d);
    lemma_raises_single(d[0], code, at);
    assert(d == seq![d[0]]);
    lemma_raises_concat(e, d, code, at);
    let dup = issue_if(
        earlier_target_id(r.targets@, i),
        error_issue("request.target_id.duplicate"@, path + "/id"@, "target IDs must be unique within a request"@),
    );
    let sel = selection_issues(t.selection, path);
    let ns = namespace_issues(t.options@, t.provider_id@, path);
    let sec = secret_issues(t.options@, path + "/options"@);
    let res = match resolved_index(r.variants@, candidate_ids(t.selection), t.provider_id@) {
        Some(_) => Seq::<IssueView>::empty(),
        None => seq![no_eligible_issue(t.id@)],
    };
    assert(target_structure_issues(r, i) == dup + sel + ns + sec + res);
    lemma_raises_concat(dup, sel, code, at);
    lemma_raises_concat(dup + sel, ns, code, at);
    lemma_raises_concat(dup + sel + ns, sec, code, at);
    lemma_raises_concat(dup + sel + ns + sec, res, code, at);
    lemma_targets_issues_include(r, r.targets@.len() as int, i, code, at);
    let head = issue_if(
        r.variants@.len() == 0,
        error_issue("request.variants.empty"@, "/variants"@, "at least one content variant is required"@),
    ) + issue_if(
        r.targets@.len() == 0,
        error_issue("request.targets.empty"@, "/targets"@, "at least one publish target is required"@),
    ) + variants_structure_issues(r.variants@, r.variants@.len() as int);
    assert(structure_issues(r) == head + targets_structure_issues(r, r.targets@.len() as int));
    lemma_raises_concat(head, targets_structure_issues(r, r.targets@.len() as int), code, at);
}

fn path_with(base: &String, suffix: &str) -> (r: String)
    ensures
        r@ == base@ + suffix@,
{
    let mut r = base.clone();
    push_str(&mut r, suffix);
    r
}

fn indexed_path(prefix: &str, index: usize) -> (r: String)
    ensures
        r@ == prefix@ + decimal(index as nat),
{
    let mut r = owned(prefix);
    push_decimal(&mut r, index as u64);
    r
}

/// Appends an issue for each secret-bearing key, in key order.
fn validate_extension_secrets(extensions: &Extensions, path: &String, issues: &mut Vec<ValidationIssue>)
    ensures
        issue_views(final(issues)@) == issue_views(old(issues)@) + secret_issues(extensions@, path@),
{
    let ghost start = issue_views(issues@);
    let mut i: usize = 0;
    while i < extensions.len()
        invariant
            0 <= i <= extensions@.len(),
            issue_views(issues@) == start + secret_issues(extensions@.take(i as int), path@),
        decreases extensions@.len() - i,
    {
        let key = extensions.key_at(i);
        let ghost before = issue_views(issues@);
        if key.looks_secret_bearing() {
            let mut p = path_with(path, "/");
            push_str(&mut p, key.as_str());
            let issue = ValidationIssue::error(
                "extension.secret_prohibited",
                p.as_str(),
                "raw credentials and secret-bearing fields are prohibited in extensions",
            );
            assert(issue@ == secret_issue(path@, extensions@[i as int].0));
            issues.push(issue);
        }
        assert(issue_views(issues@) =~= before + issue_if(
            secret_bearing(extensions@[i as int].0),
            secret_issue(path@, extensions@[i as int].0),
        ));
        proof {
            let t = extensions@.take(i + 1);
            assert(t.drop_last() =~= extensions@.take(i as int));
            assert(t.last() == extensions@[i as int]);
            assert(issue_views(issues@) =~= start + secret_issues(t, path@));
        }
        i = i + 1;
    }
    assert(extensions@.take(extensions@.len() as int) =~= extensions@);
}

/// Appends an issue for each option key outside the provider namespace.
fn validate_option_namespaces(options: &Extensions, provider: &ProviderId, path: &String, issues: &mut Vec<ValidationIssue>)
    ensures
        issue_views(final(issues)@) == issue_views(old(issues)@) + namespace_issues(
            options@,
            provider@,
            path@,
        ),
{
    let ghost start = issue_views(issues@);
    let mut i: usize = 0;
    while i < options.len()
        invariant
            0 <= i <= options@.len(),
            issue_views(issues@) == start + namespace_issues(options@.take(i as int), provider@, path@),
        decreases options@.len() - i,
    {
        let key = options.key_at(i);
        let ghost before = issue_views(issues@);
        if !key.is_scoped_to(provider) {
            let mut p = path_with(path, "/options/");
            push_str(&mut p, key.as_str());
            issues.push(
                ValidationIssue::error(
                    "target.option.namespace_mismatch",
                    p.as_str(),
                    "provider options must use the target provider namespace",
                ),
            );
        }
        assert(issue_views(issues@) =~= before + issue_if(
            !scoped_to(options@[i as int].0, provider@),
            error_issue(
                "target.option.namespace_mismatch"@,
                path@ + "/options/"@ + options@[i as int].0,
                "provider options must use the target provider namespace"@,
            ),
        ));
        proof {
            let t = options@.take(i + 1);
            assert(t.drop_last() =~= options@.take(i as int));
            assert(t.last() == options@[i as int]);
            assert(issue_views(issues@) =~= start + namespace_issues(t, provider@, path@));
        }
        i = i + 1;
    }
    assert(options@.take(options@.len() as int) =~= options@);
}

proof fn lemma_ascii_utf8_len(c: Seq<char>)
    requires
        forall|i: int| 0 <= i < c.len() ==> is_ascii_upper(#[trigger] c[i]),
    ensures
        utf8_len(c) == c.len(),
    decreases c.len(),
{
    if c.len() > 0 {
        assert(is_ascii_upper(c[c.len() - 1]));
        assert forall|i: int| 0 <= i < c.drop_last().len() implies is_ascii_upper(
            #[trigger] c.drop_last()[i],
        ) by {
            assert(c.drop_last()[i] == c[i]);
        }
        lemma_ascii_utf8_len(c.drop_last());
    }
}

fn country_is_valid(c: &String) -> (r: bool)
    ensures
        r == valid_country(c@),
{
    let chars = chars_of(c.as_str());
    let mut i: usize = 0;
    while i < chars.len()
        invariant
            chars@ == c@,
            0 <= i <= chars.len(),
            forall|j: int| 0 <= j < i ==> is_ascii_upper(#[trigger] chars@[j]),
        decreases chars.len() - i,
    {
        let ch = chars[i];
        if !('A' <= ch && ch <= 'Z') {
            assert(!is_ascii_upper(c@[i as int]));
            return false;
        }
        i = i + 1;
    }
    proof {
        lemma_ascii_utf8_len(c@);
    }
    chars.len() == 2
}

fn check_blank_audience(value: &Option<String>, path: &String, field: &str, issues: &mut Vec<ValidationIssue>)
    ensures
        issue_views(final(issues)@) == issue_views(old(issues)@) + blank_audience_issue(
            *value,
            path@,
            field@,
        ),
{
    let ghost start = issue_views(issues@);
    if let Some(v) = value {
        if is_blank(v.as_str()) {
            let mut p = path_with(path, "/audience/");
            push_str(&mut p, field);
            issues.push(
                ValidationIssue::error(
                    "audience.value.empty",
                    p.as_str(),
                    "audience values must not be empty or whitespace-only",
                ),
            );
        }
    }
    assert(issue_views(issues@) =~= start + blank_audience_issue(*value, path@, field@));
}

fn check_audience(audience: &Option<Audience>, path: &String, issues: &mut Vec<ValidationIssue>)
    ensures
        issue_views(final(issues)@) == issue_views(old(issues)@) + audience_issues(*audience, path@),
{
    let ghost start = issue_views(issues@);
    match audience {
        None => {
            assert(issue_views(issues@) =~= start + audience_issues(*audience, path@));
        },
        Some(a) => {
            if let Some(country) = &a.country {
                if !country_is_valid(country) {
                    issues.push(
                        ValidationIssue::error(
                            "audience.country.invalid",
                            path_with(path, "/audience/country").as_str(),
                            "country must be an ISO 3166-1 alpha-2 uppercase code",
                        ),
                    );
                }
            }
            let ghost after_country = issue_views(issues@);
            check_blank_audience(&a.region, path, "region", issues);
            check_blank_audience(&a.city, path, "city", issues);
            check_blank_audience(&a.segment, path, "segment", issues);
            assert(issue_views(issues@) =~= start + audience_issues(*audience, path@));
        },
    }
}

fn check_media(media: &Vec<Media>, path: &String, issues: &mut Vec<ValidationIssue>)
    ensures
        issue_views(final(issues)@) == issue_views(old(issues)@) + media_structure_issues(
            media@,
            media@.len() as int,
            path@,
        ),
{
    let ghost start = issue_views(issues@);
    let mut i: usize = 0;
    while i < media.len()
        invariant
            0 <= i <= media.len(),
            issue_views(issues@) == start + media_structure_issues(media@, i as int, path@),
        decreases media.len() - i,
    {
        let ghost before = issue_views(issues@);
        let mut mp = path_with(path, "/body/media/");
        push_decimal(&mut mp, i as u64);
        let mut j: usize = 0;
        let mut dup = false;
        while j < i
            invariant
                0 <= j <= i < media.len(),
                dup == exists|k: int| 0 <= k < j && (#[trigger] media@[k]).reference@
                    == media@[i as int].reference@,
            decreases i - j,
        {
            if media[j].reference.same(&media[i].reference) {
                dup = true;
            }
            j = j + 1;
        }
        if dup {
            issues.push(
                ValidationIssue::error(
                    "content.media_ref.duplicate",
                    path_with(&mp, "/ref").as_str(),
                    "media references must be unique within a variant",
                ),
            );
        }
        let ep = path_with(&mp, "/extensions");
        validate_extension_secrets(&media[i].extensions, &ep, issues);
        assert(issue_views(issues@) =~= before + media_item_structure_issues(media@, i as int, path@));
        i = i + 1;
    }
}

fn check_variant(vs: &Vec<ContentVariant>, i: usize, issues: &mut Vec<ValidationIssue>)
    requires
        i < vs@.len(),
    ensures
        issue_views(final(issues)@) == issue_views(old(issues)@) + variant_structure_issues(
            vs@,
            i as int,
        ),
{
    let ghost start = issue_views(issues@);
    let v = &vs[i];
    let path = indexed_path("/variants/", i);
    let mut j: usize = 0;
    let mut dup = false;
    while j < i
        invariant
            0 <= j <= i < vs.len(),
            dup == exists|k: int| 0 <= k < j && (#[trigger] vs@[k]).id@ == vs@[i as int].id@,
        decreases i - j,
    {
        if vs[j].id.same(&vs[i].id) {
            dup = true;
        }
        j = j + 1;
    }
    if dup {
        issues.push(
            ValidationIssue::error(
                "request.variant_id.duplicate",
                path_with(&path, "/id").as_str(),
                "variant IDs must be unique within a request",
            ),
        );
    }
    if v.body.is_empty() {
        issues.push(
            ValidationIssue::error(
                "content.empty",
                path_with(&path, "/body").as_str(),
                "a variant must contain meaningful text or media",
            ),
        );
    }
    let text_blank = match &v.body.text {
        Some(t) => is_blank(t.as_str()),
        None => false,
    };
    if text_blank {
        issues.push(
            ValidationIssue::error(
                "content.text.empty",
                path_with(&path, "/body/text").as_str(),
                "explicit text must not be empty or whitespace-only",
            ),
        );
    }
    let ghost head = issue_views(issues@);
    check_media(&v.body.media, &path, issues);
    let ep = path_with(&path, "/extensions");
    validate_extension_secrets(&v.extensions, &ep, issues);
    check_audience(&v.audience, &path, issues);
    assert(issue_views(issues@) =~= start + variant_structure_issues(vs@, i as int));
}

fn repeats(ids: &Vec<VariantId>) -> (r: bool)
    ensures
        r == repeats_id(ids@),
{
    let mut j: usize = 0;
    while j < ids.len()
        invariant
            0 <= j <= ids.len(),
            forall|a: int, b: int| 0 <= a < b < j ==> (#[trigger] ids@[a])@ != (#[trigger] ids@[b])@,
        decreases ids.len() - j,
    {
        let mut k: usize = 0;
        while k < j
            invariant
                0 <= k <= j < ids.len(),
                forall|a: int| 0 <= a < k ==> (#[trigger] ids@[a])@ != ids@[j as int]@,
            decreases j - k,
        {
            if ids[k].same(&ids[j]) {
                assert(ids@[k as int]@ == ids@[j as int]@);
                return true;
            }
            k = k + 1;
        }
        j = j + 1;
    }
    false
}

fn check_target(r: &PublishRequest, i: usize, issues: &mut Vec<ValidationIssue>)
    requires
        i < r.targets@.len(),
    ensures
        issue_views(final(issues)@) == issue_views(old(issues)@) + target_structure_issues(
            *r,
            i as int,
        ),
{
    let ghost start = issue_views(issues@);
    let t = &r.targets[i];
    let path = indexed_path("/targets/", i);
    let mut j: usize = 0;
    let mut dup = false;
    while j < i
        invariant
            0 <= j <= i < r.targets.len(),
            dup == exists|k: int| 0 <= k < j && (#[trigger] r.targets@[k]).id@
                == r.targets@[i as int].id@,
        decreases i - j,
    {
        if r.targets[j].id.same(&r.targets[i].id) {
            dup = true;
        }
        j = j + 1;
    }
    if dup {
        issues.push(
            ValidationIssue::error(
                "request.target_id.duplicate",
                path_with(&path, "/id").as_str(),
                "target IDs must be unique within a request",
            ),
        );
    }
    let ghost before_sel = issue_views(issues@);
    if let VariantSelection::Ordered { variant_ids } = &t.selection {
        if variant_ids.len() == 0 {
            issues.push(
                ValidationIssue::error(
                    "selection.candidates.empty",
                    path_with(&path, "/selection/variant_ids").as_str(),
                    "ordered selection requires at least one candidate",
                ),
            );
        }
        if repeats(variant_ids) {
            issues.push(
                ValidationIssue::error(
                    "selection.candidates.duplicate",
                    path_with(&path, "/selection/variant_ids").as_str(),
                    "ordered selection candidates must be unique",
                ),
            );
        }
    }
    assert(issue_views(issues@) =~= before_sel + selection_issues(t.selection, path@));
    validate_option_namespaces(&t.options, &t.provider_id, &path, issues);
    let op = path_with(&path, "/options");
    validate_extension_secrets(&t.options, &op, issues);
    let ghost before_resolve = issue_views(issues@);
    assert(before_resolve =~= start + issue_if(
        earlier_target_id(r.targets@, i as int),
        error_issue(
            "request.target_id.duplicate"@,
            path@ + "/id"@,
            "target IDs must be unique within a request"@,
        ),
    ) + selection_issues(t.selection, path@) + namespace_issues(
        t.options@,
        t.provider_id@,
        path@,
    ) + secret_issues(t.options@, path@ + "/options"@));
    match r.resolve_variant(t) {
        Ok(_) => {
            assert(issue_views(issues@) =~= before_resolve);
        },
        Err(issue) => {
            issues.push(issue);
            assert(issue_views(issues@) =~= before_resolve + seq![no_eligible_issue(t.id@)]);
        },
    }
    assert(issue_views(issues@) =~= start + target_structure_issues(*r, i as int));
}

impl PublishRequest {
    /// Finds the index of the first eligible variant according to the target
    /// selection.
    pub fn resolve_variant_index(&self, target: &PublishTarget) -> (r: Option<usize>)
        ensures
            r matches Some(i) ==> resolved_index(
                self.variants@,
                candidate_ids(target.selection),
                target.provider_id@,
            ) == Some(i as int),
            r is None ==> resolved_index(
                self.variants@,
                candidate_ids(target.selection),
                target.provider_id@,
            ) is None,
    {
        let cands = target.selection.candidates();
        let ghost all = id_views(cands@);
        let ghost vs = self.variants@;
        let mut c: usize = 0;
        assert(all.skip(0) =~= all);
        while c < cands.len()
            invariant
                0 <= c <= cands.len(),
                all == id_views(cands@),
                all == candidate_ids(target.selection),
                vs == self.variants@,
                resolved_index(vs, all, target.provider_id@) == resolved_index(
                    vs,
                    all.skip(c as int),
                    target.provider_id@,
                ),
            decreases cands.len() - c,
        {
            let cand = &cands[c];
            let mut i: usize = 0;
            while i < self.variants.len() && !self.variants[i].id.same(cand)
                invariant
                    0 <= i <= self.variants.len(),
                    vs == self.variants@,
                    forall|j: int| 0 <= j < i ==> vs[j].id@ != cand@,
                decreases self.variants.len() - i,
            {
                i = i + 1;
            }
            proof {
                lemma_first_with_id(vs, cand@);
                let f = first_with_id(vs, cand@);
                if i < vs.len() {
                    assert(f == i) by {
                        if f < i {
                            assert(vs[f].id@ != cand@);
                        }
                    }
                } else {
                    assert(f == vs.len()) by {
                        if f < vs.len() {
                            assert(vs[f].id@ != cand@);
                        }
                    }
                }
                assert(all.skip(c as int)[0] == cand@);
                assert(all.skip(c as int).drop_first() =~= all.skip(c + 1));
            }
            if i < self.variants.len() && self.variants[i].supports_provider(&target.provider_id) {
                return Some(i);
            }
            c = c + 1;
        }
        None
    }

    /// Finds the first eligible variant according to the target selection.
    pub fn resolve_variant(&self, target: &PublishTarget) -> (r: Result<&ContentVariant, ValidationIssue>)
        ensures
            match resolved_index(self.variants@, candidate_ids(target.selection), target.provider_id@) {
                Some(i) => r matches Ok(v) && *v == self.variants@[i],
                None => r matches Err(issue) && issue@ == no_eligible_issue(target.id@),
            },
    {
        proof {
            lemma_resolved_index(self.variants@, candidate_ids(target.selection), target.provider_id@);
        }
        match self.resolve_variant_index(target) {
            Some(i) => Ok(&self.variants[i]),
            None => Err(no_eligible_variant(target)),
        }
    }

    /// Derives stable adapter idempotency material for a target.
    pub fn idempotency_scope(&self, target: &PublishTarget) -> (r: IdempotencyScope)
        ensures
            r.root == self.idempotency_key,
            r.target_id == target.id,
    {
        IdempotencyScope { root: self.idempotency_key.clone(), target_id: target.id.clone() }
    }

    /// Validates request-local invariants without consulting a provider.
    pub fn structural_issues(&self) -> (r: Vec<ValidationIssue>)
        ensures
            issue_views(r@) == structure_issues(*self),
    {
        let mut issues: Vec<ValidationIssue> = Vec::new();
        if self.variants.len() == 0 {
            issues.push(
                ValidationIssue::error(
                    "request.variants.empty",
                    "/variants",
                    "at least one content variant is required",
                ),
            );
        }
        if self.targets.len() == 0 {
            issues.push(
                ValidationIssue::error(
                    "request.targets.empty",
                    "/targets",
                    "at least one publish target is required",
                ),
            );
        }
        let ghost head = issue_views(issues@);
        let mut i: usize = 0;
        while i < self.variants.len()
            invariant
                0 <= i <= self.variants.len(),
                issue_views(issues@) == head + variants_structure_issues(self.variants@, i as int),
            decreases self.variants.len() - i,
        {
            check_variant(&self.variants, i, &mut issues);
            i = i + 1;
        }
        let ghost mid = issue_views(issues@);
        let mut t: usize = 0;
        while t < self.targets.len()
            invariant
                0 <= t <= self.targets.len(),
                issue_views(issues@) == mid + targets_structure_issues(*self, t as int),
            decreases self.targets.len() - t,
        {
            check_target(self, t, &mut issues);
            t = t + 1;
        }
        assert(issue_views(issues@) =~= structure_issues(*self));
        issues
    }
}

} // verus!
