//! Provider capability snapshots and the checks they imply for a variant.

use vstd::prelude::*;

use crate::content::{ContentVariant, Extensions, Media, MediaKind, PublicationFormat, text_count};
use crate::ids::ProviderId;
use crate::text::{copy_vec, decimal, push_decimal, push_str};
use crate::validation::{
    IssueView, ValidationIssue, error_issue, issue_views, lemma_raises_concat, lemma_raises_single,
    raises,
};

verus! {

broadcast use vstd::seq_lib::group_seq_properties;

/// Text support and limits reported by a provider at runtime.
#[derive(Clone, Copy, Debug, PartialEq, Eq)]
pub struct TextCapabilities {
    /// Whether text can be included at all.
    pub supported: bool,
    /// Maximum Unicode scalar values; `None` means Prism has no known limit.
    pub max_characters: Option<u32>,
}

/// Alternative-text support and limits.
#[derive(Clone, Copy, Debug, PartialEq, Eq)]
pub struct AltTextCapabilities {
    /// Whether the provider can preserve alt text.
    pub supported: bool,
    /// Maximum Unicode scalar values; `None` means Prism has no known limit.
    pub max_characters: Option<u32>,
}

/// Media support and limits reported by a provider at runtime.
#[derive(Debug, PartialEq, Eq)]
pub struct MediaCapabilities {
    /// Supported media kinds, each at most once.
    pub supported_kinds: Vec<MediaKind>,
    /// Maximum media items in one publication; `None` means no known limit.
    pub max_items: Option<u16>,
    /// Whether one publication can mix media kinds.
    pub mixed_kinds: bool,
    /// Alternative-text behavior.
    pub alt_text: AltTextCapabilities,
}

/// Runtime capability snapshot for one provider/channel context.
#[derive(Debug)]
pub struct ProviderCapabilities {
    /// Provider that produced the snapshot.
    pub provider_id: ProviderId,
    /// Optional provider-defined snapshot revision.
    pub revision: Option<String>,
    /// Supported publication formats, each at most once.
    pub formats: Vec<PublicationFormat>,
    /// Text support.
    pub text: TextCapabilities,
    /// Media support.
    pub media: MediaCapabilities,
    /// Namespaced capabilities that are not yet canonical.
    pub extensions: Extensions,
}

impl Clone for MediaCapabilities {
    fn clone(&self) -> (r: Self)
        ensures
            r.supported_kinds@ == self.supported_kinds@,
            r.max_items == self.max_items,
            r.mixed_kinds == self.mixed_kinds,
            r.alt_text == self.alt_text,
    {
        MediaCapabilities {
            supported_kinds: copy_vec(&self.supported_kinds),
            max_items: self.max_items,
            mixed_kinds: self.mixed_kinds,
            alt_text: self.alt_text,
        }
    }
}

/// Whether two snapshots state the same capabilities.
pub open spec fn same_snapshot(a: ProviderCapabilities, b: ProviderCapabilities) -> bool {
    &&& a.provider_id == b.provider_id
    &&& a.revision == b.revision
    &&& a.formats@ == b.formats@
    &&& a.text == b.text
    &&& a.media.supported_kinds@ == b.media.supported_kinds@
    &&& a.media.max_items == b.media.max_items
    &&& a.media.mixed_kinds == b.media.mixed_kinds
    &&& a.media.alt_text == b.media.alt_text
    &&& a.extensions@ == b.extensions@
}

impl Clone for ProviderCapabilities {
    fn clone(&self) -> (r: Self)
        ensures
            same_snapshot(r, *self),
    {
        ProviderCapabilities {
            provider_id: self.provider_id.clone(),
            revision: self.revision.clone(),
            formats: copy_vec(&self.formats),
            text: self.text,
            media: self.media.clone(),
            extensions: self.extensions.clone(),
        }
    }
}

/// An issue list of one issue when the condition holds, else empty.
pub open spec fn issue_if(c: bool, i: IssueView) -> Seq<IssueView> {
    if c {
        seq![i]
    } else {
        Seq::empty()
    }
}

/// Whether the media items use more than one kind.
pub open spec fn mixes_kinds(media: Seq<Media>) -> bool {
    exists|i: int| 0 <= i < media.len() && (#[trigger] media[i]).kind != media[0].kind
}

/// The path `/variants/{id}` of a variant.
pub open spec fn variant_path(v: ContentVariant) -> Seq<char> {
    "/variants/"@ + v.id@
}

/// The path of one media item below a variant path.
pub open spec fn media_path(base: Seq<char>, index: int) -> Seq<char> {
    base + "/body/media/"@ + decimal(index as nat)
}

/// Issues for one media item.
pub open spec fn media_item_issues(caps: ProviderCapabilities, base: Seq<char>, index: int, m: Media) -> Seq<IssueView> {
    let p = media_path(base, index);
    issue_if(
        !caps.media.supported_kinds@.contains(m.kind),
        error_issue(
            "capability.media.kind_unsupported"@,
            p + "/kind"@,
            "provider does not support this media kind"@,
        ),
    ) + match m.alt_text {
        None => Seq::empty(),
        Some(alt) => issue_if(
            !caps.media.alt_text.supported,
            error_issue(
                "capability.media.alt_text_unsupported"@,
                p + "/alt_text"@,
                "provider cannot preserve alternative text"@,
            ),
        ) + match caps.media.alt_text.max_characters {
            None => Seq::empty(),
            Some(max) => issue_if(
                alt@.len() > max,
                error_issue(
                    "capability.media.alt_text_too_long"@,
                    p + "/alt_text"@,
                    "alternative text exceeds the provider capability snapshot"@,
                ),
            ),
        },
    }
}

/// Issues for the media items, in order.
pub open spec fn media_issues(caps: ProviderCapabilities, base: Seq<char>, media: Seq<Media>) -> Seq<IssueView>
    decreases media.len(),
{
    if media.len() == 0 {
        Seq::empty()
    } else {
        media_issues(caps, base, media.drop_last()) + media_item_issues(
            caps,
            base,
            media.len() - 1,
            media.last(),
        )
    }
}

/// Issues for the parts of a variant before its media items, in order.
pub open spec fn head_issues(caps: ProviderCapabilities, v: ContentVariant) -> Seq<IssueView> {
    let base = variant_path(v);
    issue_if(
        !caps.formats@.contains(v.format),
        error_issue(
            "capability.format.unsupported"@,
            base + "/format"@,
            "provider does not support the requested publication format"@,
        ),
    ) + issue_if(
        v.body.text is Some && !caps.text.supported,
        error_issue(
            "capability.text.unsupported"@,
            base + "/body/text"@,
            "provider does not support text for this target"@,
        ),
    ) + match caps.text.max_characters {
        None => Seq::empty(),
        Some(max) => issue_if(
            text_count(v.body.text) > max,
            error_issue(
                "capability.text.too_long"@,
                base + "/body/text"@,
                "text exceeds the provider capability snapshot"@,
            ),
        ),
    } + match caps.media.max_items {
        None => Seq::empty(),
        Some(max) => issue_if(
            v.body.media@.len() > max,
            error_issue(
                "capability.media.too_many_items"@,
                base + "/body/media"@,
                "media count exceeds the provider capability snapshot"@,
            ),
        ),
    } + issue_if(
        mixes_kinds(v.body.media@) && !caps.media.mixed_kinds,
        error_issue(
            "capability.media.mixed_kinds_unsupported"@,
            base + "/body/media"@,
            "provider does not support mixed media kinds"@,
        ),
    )
}

/// Every issue the capability snapshot raises for a variant, in order.
pub open spec fn variant_issues(caps: ProviderCapabilities, v: ContentVariant) -> Seq<IssueView> {
    head_issues(caps, v) + media_issues(caps, variant_path(v), v.body.media@)
}

fn contains_kind(kinds: &Vec<MediaKind>, kind: MediaKind) -> (r: bool)
    ensures
        r == kinds@.contains(kind),
{
    let mut i: usize = 0;
    while i < kinds.len()
        invariant
            0 <= i <= kinds.len(),
            forall|j: int| 0 <= j < i ==> kinds@[j] != kind,
        decreases kinds.len() - i,
    {
        if kinds[i] == kind {
            assert(kinds@[i as int] == kind);
            return true;
        }
        i = i + 1;
    }
    false
}

fn contains_format(formats: &Vec<PublicationFormat>, format: PublicationFormat) -> (r: bool)
    ensures
        r == formats@.contains(format),
{
    let mut i: usize = 0;
    while i < formats.len()
        invariant
            0 <= i <= formats.len(),
            forall|j: int| 0 <= j < i ==> formats@[j] != format,
        decreases formats.len() - i,
    {
        if formats[i] == format {
            assert(formats@[i as int] == format);
            return true;
        }
        i = i + 1;
    }
    false
}

fn media_mixes_kinds(media: &Vec<Media>) -> (r: bool)
    ensures
        r == mixes_kinds(media@),
{
    if media.len() == 0 {
        return false;
    }
    let first = media[0].kind;
    let mut i: usize = 1;
    while i < media.len()
        invariant
            media.len() > 0,
            first == media@[0].kind,
            1 <= i <= media.len(),
            forall|j: int| 0 <= j < i ==> (#[trigger] media@[j]).kind == first,
        decreases media.len() - i,
    {
        if media[i].kind != first {
            assert(media@[i as int].kind != media@[0].kind);
            return true;
        }
        i = i + 1;
    }
    false
}

/// A copy of `base` followed by `suffix`.
fn path_with(base: &String, suffix: &str) -> (r: String)
    ensures
        r@ == base@ + suffix@,
{
    let mut r = base.clone();
    push_str(&mut r, suffix);
    r
}

impl ProviderCapabilities {
    /// Whether each format and each media kind occurs at most once, as in a set.
    pub open spec fn wf(&self) -> bool {
        &&& self.formats@.no_duplicates()
        &&& self.media.supported_kinds@.no_duplicates()
    }

    fn push_media_issues(&self, base: &String, index: usize, m: &Media, issues: &mut Vec<ValidationIssue>)
        ensures
            issue_views(final(issues)@) == issue_views(old(issues)@) + media_item_issues(
                *self,
                base@,
                index as int,
                *m,
            ),
    {
        let ghost start = issue_views(issues@);
        let mut p = base.clone();
        push_str(&mut p, "/body/media/");
        push_decimal(&mut p, index as u64);
        let ghost p_view = media_path(base@, index as int);
        assert(p@ == p_view);
        let ghost kind_part = issue_if(
            !self.media.supported_kinds@.contains(m.kind),
            error_issue(
                "capability.media.kind_unsupported"@,
                p_view + "/kind"@,
                "provider does not support this media kind"@,
            ),
        );
        if !contains_kind(&self.media.supported_kinds, m.kind) {
            issues.push(
                ValidationIssue::error(
                    "capability.media.kind_unsupported",
                    path_with(&p, "/kind").as_str(),
                    "provider does not support this media kind",
                ),
            );
        }
        assert(issue_views(issues@) =~= start + kind_part);
        match &m.alt_text {
            None => {
                assert(issue_views(issues@) =~= start + media_item_issues(*self, base@, index as int, *m));
            },
            Some(alt) => {
                let ghost mid = issue_views(issues@);
                let ghost unsupported_part = issue_if(
                    !self.media.alt_text.supported,
                    error_issue(
                        "capability.media.alt_text_unsupported"@,
                        p_view + "/alt_text"@,
                        "provider cannot preserve alternative text"@,
                    ),
                );
                if !self.media.alt_text.supported {
                    issues.push(
                        ValidationIssue::error(
                            "capability.media.alt_text_unsupported",
                            path_with(&p, "/alt_text").as_str(),
                            "provider cannot preserve alternative text",
                        ),
                    );
                }
                assert(issue_views(issues@) =~= mid + unsupported_part);
                let ghost mid2 = issue_views(issues@);
                match self.media.alt_text.max_characters {
                    None => {},
                    Some(max) => {
                        if crate::text::chars_of(alt.as_str()).len() > max as usize {
                            issues.push(
                                ValidationIssue::error(
                                    "capability.media.alt_text_too_long",
                                    path_with(&p, "/alt_text").as_str(),
                                    "alternative text exceeds the provider capability snapshot",
                                ),
                            );
                        }
                    },
                }
                assert(issue_views(issues@) =~= start + media_item_issues(*self, base@, index as int, *m));
            },
        }
    }

    /// Applies provider-neutral capability checks to one resolved variant.
    pub fn validate_variant(&self, variant: &ContentVariant) -> (r: Vec<ValidationIssue>)
        ensures
            issue_views(r@) == variant_issues(*self, *variant),
    {
        let mut base = crate::text::owned("/variants/");
        push_str(&mut base, variant.id.as_str());
        assert(base@ == variant_path(*variant));
        let mut issues: Vec<ValidationIssue> = Vec::new();

        if !contains_format(&self.formats, variant.format) {
            issues.push(
                ValidationIssue::error(
                    "capability.format.unsupported",
                    path_with(&base, "/format").as_str(),
                    "provider does not support the requested publication format",
                ),
            );
        }
        if variant.body.text.is_some() && !self.text.supported {
            issues.push(
                ValidationIssue::error(
                    "capability.text.unsupported",
                    path_with(&base, "/body/text").as_str(),
                    "provider does not support text for this target",
                ),
            );
        }
        if let Some(maximum) = self.text.max_characters {
            if variant.body.text_character_count() > maximum as usize {
                issues.push(
                    ValidationIssue::error(
                        "capability.text.too_long",
                        path_with(&base, "/body/text").as_str(),
                        "text exceeds the provider capability snapshot",
                    ),
                );
            }
        }
        if let Some(maximum) = self.media.max_items {
            if variant.body.media.len() > maximum as usize {
                issues.push(
                    ValidationIssue::error(
                        "capability.media.too_many_items",
                        path_with(&base, "/body/media").as_str(),
                        "media count exceeds the provider capability snapshot",
                    ),
                );
            }
        }
        if media_mixes_kinds(&variant.body.media) && !self.media.mixed_kinds {
            issues.push(
                ValidationIssue::error(
                    "capability.media.mixed_kinds_unsupported",
                    path_with(&base, "/body/media").as_str(),
                    "provider does not support mixed media kinds",
                ),
            );
        }
        assert(issue_views(issues@) =~= head_issues(*self, *variant));

        let media = &variant.body.media;
        let mut index: usize = 0;
        while index < media.len()
            invariant
                0 <= index <= media.len(),
                base@ == variant_path(*variant),
                media@ == variant.body.media@,
                issue_views(issues@) == head_issues(*self, *variant) + media_issues(
                    *self,
                    base@,
                    media@.take(index as int),
                ),
            decreases media.len() - index,
        {
            self.push_media_issues(&base, index, &media[index], &mut issues);
            proof {
                let t = media@.take(index + 1);
                assert(t.drop_last() =~= media@.take(index as int));
                assert(t.last() == media@[index as int]);
            }
            index = index + 1;
        }
        assert(media@.take(media.len() as int) =~= media@);
        issues
    }
}


/// An issue raised for one media item is raised for the list of items.
proof fn lemma_media_issues_include(
    caps: ProviderCapabilities,
    base: Seq<char>,
    media: Seq<Media>,
    i: int,
    code: Seq<char>,
    path: Seq<char>,
)
    requires
        0 <= i < media.len(),
        raises(media_item_issues(caps, base, i, media[i]), code, path),
    ensures
        raises(media_issues(caps, base, media), code, path),
    decreases media.len(),
{
    if i < media.len() - 1 {
        assert(media.drop_last()[i] == media[i]);
        lemma_media_issues_include(caps, base, media.drop_last(), i, code, path);
    }
    lemma_raises_concat(
        media_issues(caps, base, media.drop_last()),
        media_item_issues(caps, base, media.len() - 1, media.last()),
        code,
        path,
    );
}

/// Each check of a variant against a capability snapshot raises its issue
/// whenever the snapshot does not allow the variant: an unsupported format,
/// text for a provider without text, text over the character limit, more
/// media items than allowed, and media of different kinds where the provider
/// cannot mix them.
pub proof fn lemma_variant_checks_raise(caps: ProviderCapabilities, v: ContentVariant)
    ensures
        !caps.formats@.contains(v.format) ==> raises(
            variant_issues(caps, v),
            "capability.format.unsupported"@,
            "/variants/"@ + v.id@ + "/format"@,
        ),
        (v.body.text is Some && !caps.text.supported) ==> raises(
            variant_issues(caps, v),
            "capability.text.unsupported"@,
            "/variants/"@ + v.id@ + "/body/text"@,
        ),
        (caps.text.max_characters matches Some(max) && v.body.text matches Some(t) && t@.len() > max)
            ==> raises(variant_issues(caps, v), "capability.text.too_long"@, "/variants/"@ + v.id@ + "/body/text"@),
        (caps.media.max_items matches Some(max) && v.body.media@.len() > max) ==> raises(
            variant_issues(caps, v),
            "capability.media.too_many_items"@,
            "/variants/"@ + v.id@ + "/body/media"@,
        ),
        ((exists|i: int, j: int|
            0 <= i < j < v.body.media@.len() && (#[trigger] v.body.media@[i]).kind != (
            #[trigger] v.body.media@[j]).kind) && !caps.media.mixed_kinds) ==> raises(
            variant_issues(caps, v),
            "capability.media.mixed_kinds_unsupported"@,
            "/variants/"@ + v.id@ + "/body/media"@,
        ),
{
    let base = variant_path(v);
    let f = issue_if(
        !caps.formats@.contains(v.format),
        error_issue(
            "capability.format.unsupported"@,
            base + "/format"@,
            "provider does not support the requested publication format"@,
        ),
    );
    let t = issue_if(
        v.body.text is Some && !caps.text.supported,
        error_issue(
            "capability.text.unsupported"@,
            base + "/body/text"@,
            "provider does not support text for this target"@,
        ),
    );
    let l = match caps.text.max_characters {
        None => Seq::empty(),
        Some(max) => issue_if(
            text_count(v.body.text) > max,
            error_issue(
                "capability.text.too_long"@,
                base + "/body/text"@,
                "text exceeds the provider capability snapshot"@,
            ),
        ),
    };
    let m = match caps.media.max_items {
        None => Seq::empty(),
        Some(max) => issue_if(
            v.body.media@.len() > max,
            error_issue(
                "capability.media.too_many_items"@,
                base + "/body/media"@,
                "media count exceeds the provider capability snapshot"@,
            ),
        ),
    };
    let x = issue_if(
        mixes_kinds(v.body.media@) && !caps.media.mixed_kinds,
        error_issue(
            "capability.media.mixed_kinds_unsupported"@,
            base + "/body/media"@,
            "provider does not support mixed media kinds"@,
        ),
    );
    let media = media_issues(caps, base, v.body.media@);
    assert(head_issues(caps, v) == f + t + l + m + x);
    assert(variant_issues(caps, v) == f + t + l + m + x + media);
    // Each check's issue, once raised by its own part, is raised by the whole list.
    let code_f = "capability.format.unsupported"@;
    let code_t = "capability.text.unsupported"@;
    let code_l = "capability.text.too_long"@;
    let code_m = "capability.media.too_many_items"@;
    let code_x = "capability.media.mixed_kinds_unsupported"@;
    if !caps.formats@.contains(v.format) {
        lemma_raises_single(f[0], code_f, base + "/format"@);
        assert(f == seq![f[0]]);
        lemma_raises_concat(f, t, code_f, base + "/format"@);
        lemma_raises_concat(f + t, l, code_f, base + "/format"@);
        lemma_raises_concat(f + t + l, m, code_f, base + "/format"@);
        lemma_raises_concat(f + t + l + m, x, code_f, base + "/format"@);
        lemma_raises_concat(f + t + l + m + x, media, code_f, base + "/format"@);
    }
    if v.body.text is Some && !caps.text.supported {
        lemma_raises_single(t[0], code_t, base + "/body/text"@);
        assert(t == seq![t[0]]);
        lemma_raises_concat(f, t, code_t, base + "/body/text"@);
        lemma_raises_concat(f + t, l, code_t, base + "/body/text"@);
        lemma_raises_concat(f + t + l, m, code_t, base + "/body/text"@);
        lemma_raises_concat(f + t + l + m, x, code_t, base + "/body/text"@);
        lemma_raises_concat(f + t + l + m + x, media, code_t, base + "/body/text"@);
    }
    if caps.text.max_characters matches Some(max) && v.body.text matches Some(tx) && tx@.len() > max {
        lemma_raises_single(l[0], code_l, base + "/body/text"@);
        assert(l == seq![l[0]]);
        lemma_raises_concat(f + t, l, code_l, base + "/body/text"@);
        lemma_raises_concat(f + t + l, m, code_l, base + "/body/text"@);
        lemma_raises_concat(f + t + l + m, x, code_l, base + "/body/text"@);
        lemma_raises_concat(f + t + l + m + x, media, code_l, base + "/body/text"@);
    }
    if caps.media.max_items matches Some(max) && v.body.media@.len() > max {
        lemma_raises_single(m[0], code_m, base + "/body/media"@);
        assert(m == seq![m[0]]);
        lemma_raises_concat(f + t + l, m, code_m, base + "/body/media"@);
        lemma_raises_concat(f + t + l + m, x, code_m, base + "/body/media"@);
        lemma_raises_concat(f + t + l + m + x, media, code_m, base + "/body/media"@);
    }
    if (exists|i: int, j: int|
        0 <= i < j < v.body.media@.len() && (#[trigger] v.body.media@[i]).kind != (
        #[trigger] v.body.media@[j]).kind) && !caps.media.mixed_kinds {
        let (i, j) = choose|i: int, j: int|
            0 <= i < j < v.body.media@.len() && (#[trigger] v.body.media@[i]).kind != (
            #[trigger] v.body.media@[j]).kind;
        if v.body.media@[i].kind != v.body.media@[0].kind {
            assert(0 <= i < v.body.media@.len() && v.body.media@[i].kind != v.body.media@[0].kind);
        } else {
            assert(0 <= j < v.body.media@.len() && v.body.media@[j].kind != v.body.media@[0].kind);
        }
        assert(mixes_kinds(v.body.media@));
        lemma_raises_single(x[0], code_x, base + "/body/media"@);
        assert(x == seq![x[0]]);
        lemma_raises_concat(f + t + l + m, x, code_x, base + "/body/media"@);
        lemma_raises_concat(f + t + l + m + x, media, code_x, base + "/body/media"@);
    }
}

/// Each check of one media item raises its issue when the snapshot does not
/// allow the item: a kind the provider does not support, alternative text
/// for a provider that cannot keep it, and alternative text over the limit.
pub proof fn lemma_media_checks_raise(caps: ProviderCapabilities, v: ContentVariant, i: int)
    requires
        0 <= i < v.body.media@.len(),
    ensures
        !caps.media.supported_kinds@.contains(v.body.media@[i].kind) ==> raises(
            variant_issues(caps, v),
            "capability.media.kind_unsupported"@,
            "/variants/"@ + v.id@ + "/body/media/"@ + decimal(i as nat) + "/kind"@,
        ),
        (v.body.media@[i].alt_text is Some && !caps.media.alt_text.supported) ==> raises(
            variant_issues(caps, v),
            "capability.media.alt_text_unsupported"@,
            "/variants/"@ + v.id@ + "/body/media/"@ + decimal(i as nat) + "/alt_text"@,
        ),
        (v.body.media@[i].alt_text matches Some(alt) && caps.media.alt_text.max_characters matches Some(
            max,
        ) && alt@.len() > max) ==> raises(
            variant_issues(caps, v),
            "capability.media.alt_text_too_long"@,
            "/variants/"@ + v.id@ + "/body/media/"@ + decimal(i as nat) + "/alt_text"@,
        ),
{
    let base = variant_path(v);
    let media = v.body.media@;
    let item = media[i];
    let p = media_path(base, i);
    let kind_part = issue_if(
        !caps.media.supported_kinds@.contains(item.kind),
        error_issue(
            "capability.media.kind_unsupported"@,
            p + "/kind"@,
            "provider does not support this media kind"@,
        ),
    );
    let rest = match item.alt_text {
        None => Seq::empty(),
        Some(alt) => issue_if(
            !caps.media.alt_text.supported,
            error_issue(
                "capability.media.alt_text_unsupported"@,
                p + "/alt_text"@,
                "provider cannot preserve alternative text"@,
            ),
        ) + match caps.media.alt_text.max_characters {
            None => Seq::empty(),
            Some(max) => issue_if(
                alt@.len() > max,
                error_issue(
                    "capability.media.alt_text_too_long"@,
                    p + "/alt_text"@,
                    "alternative text exceeds the provider capability snapshot"@,
                ),
            ),
        },
    };
    assert(media_item_issues(caps, base, i, item) == kind_part + rest);
    assert(p + "/kind"@ == "/variants/"@ + v.id@ + "/body/media/"@ + decimal(i as nat) + "/kind"@);
    assert(p + "/alt_text"@ == "/variants/"@ + v.id@ + "/body/media/"@ + decimal(i as nat) + "/alt_text"@);
    let code_k = "capability.media.kind_unsupported"@;
    let code_a = "capability.media.alt_text_unsupported"@;
    let code_l = "capability.media.alt_text_too_long"@;
    if !caps.media.supported_kinds@.contains(item.kind) {
        lemma_raises_single(kind_part[0], code_k, p + "/kind"@);
        assert(kind_part == seq![kind_part[0]]);
        lemma_raises_concat(kind_part, rest, code_k, p + "/kind"@);
        lemma_media_issues_include(caps, base, media, i, code_k, p + "/kind"@);
        lemma_raises_concat(head_issues(caps, v), media_issues(caps, base, media), code_k, p + "/kind"@);
    }
    if let Some(alt) = item.alt_text {
        let a = issue_if(
            !caps.media.alt_text.supported,
            error_issue(
                "capability.media.alt_text_unsupported"@,
                p + "/alt_text"@,
                "provider cannot preserve alternative text"@,
            ),
        );
        let b = match caps.media.alt_text.max_characters {
            None => Seq::empty(),
            Some(max) => issue_if(
                alt@.len() > max,
                error_issue(
                    "capability.media.alt_text_too_long"@,
                    p + "/alt_text"@,
                    "alternative text exceeds the provider capability snapshot"@,
                ),
            ),
        };
        assert(rest == a + b);
        if !caps.media.alt_text.supported {
            lemma_raises_single(a[0], code_a, p + "/alt_text"@);
            assert(a == seq![a[0]]);
            lemma_raises_concat(a, b, code_a, p + "/alt_text"@);
            lemma_raises_concat(kind_part, rest, code_a, p + "/alt_text"@);
            lemma_media_issues_include(caps, base, media, i, code_a, p + "/alt_text"@);
            lemma_raises_concat(head_issues(caps, v), media_issues(caps, base, media), code_a, p + "/alt_text"@);
        }
        if caps.media.alt_text.max_characters matches Some(max) && alt@.len() > max {
            lemma_raises_single(b[0], code_l, p + "/alt_text"@);
            assert(b == seq![b[0]]);
            lemma_raises_concat(a, b, code_l, p + "/alt_text"@);
            lemma_raises_concat(kind_part, rest, code_l, p + "/alt_text"@);
            lemma_media_issues_include(caps, base, media, i, code_l, p + "/alt_text"@);
            lemma_raises_concat(head_issues(caps, v), media_issues(caps, base, media), code_l, p + "/alt_text"@);
        }
    }
}


/// Whether a media item fits the snapshot: its kind is supported, and any
/// alternative text is kept and within the limit.
pub open spec fn media_fits(caps: ProviderCapabilities, m: Media) -> bool {
    &&& caps.media.supported_kinds@.contains(m.kind)
    &&& m.alt_text matches Some(alt) ==> caps.media.alt_text.supported && (
    caps.media.alt_text.max_characters matches Some(max) ==> alt@.len() <= max)
}

proof fn lemma_fitting_media_raise_nothing(caps: ProviderCapabilities, base: Seq<char>, media: Seq<Media>)
    requires
        forall|i: int| 0 <= i < media.len() ==> media_fits(caps, #[trigger] media[i]),
    ensures
        media_issues(caps, base, media).len() == 0,
    decreases media.len(),
{
    if media.len() > 0 {
        assert forall|i: int| 0 <= i < media.drop_last().len() implies media_fits(
            caps,
            #[trigger] media.drop_last()[i],
        ) by {
            assert(media.drop_last()[i] == media[i]);
        }
        lemma_fitting_media_raise_nothing(caps, base, media.drop_last());
        assert(media_fits(caps, media[media.len() - 1]));
    }
}

/// A variant that the snapshot allows in every respect raises no issue: a
/// supported format, text only where text is supported and within the
/// limit, no more media items than allowed, one media kind unless kinds may
/// be mixed, and every media item fitting.
pub proof fn lemma_fitting_variant_raises_nothing(caps: ProviderCapabilities, v: ContentVariant)
    requires
        caps.formats@.contains(v.format),
        v.body.text matches Some(t) ==> caps.text.supported && (caps.text.max_characters matches Some(max)
            ==> t@.len() <= max),
        caps.media.max_items matches Some(max) ==> v.body.media@.len() <= max,
        !caps.media.mixed_kinds ==> forall|i: int, j: int|
            0 <= i < v.body.media@.len() && 0 <= j < v.body.media@.len() ==> (#[trigger] v.body.media@[i]).kind
                == (#[trigger] v.body.media@[j]).kind,
        forall|i: int| 0 <= i < v.body.media@.len() ==> media_fits(caps, #[trigger] v.body.media@[i]),
    ensures
        variant_issues(caps, v).len() == 0,
{
    if !caps.media.mixed_kinds && mixes_kinds(v.body.media@) {
        let i = choose|i: int| 0 <= i < v.body.media@.len() && (#[trigger] v.body.media@[i]).kind != v.body.media@[0].kind;
        assert(v.body.media@[i].kind == v.body.media@[0].kind);
    }
    lemma_fitting_media_raise_nothing(caps, variant_path(v), v.body.media@);
    assert(head_issues(caps, v).len() == 0);
}

} // verus!
