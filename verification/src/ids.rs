//! Validated opaque references and identifiers.

use vstd::prelude::*;

use crate::text::{
    is_white_space,
    chars_of, utf8_longer_than, char_is_control, char_is_white_space, has_outer_white_space,
    is_ascii_digit, is_ascii_lower, is_control_char, owned, push_str, split_chars, split_on,
    utf8_len, views_of,
};

verus! {

/// Most UTF-8 bytes an opaque reference may hold.
pub const MAX_REFERENCE_LENGTH: usize = 256;

/// Most UTF-8 bytes a dotted identifier may hold.
pub const MAX_DOTTED_LENGTH: usize = 128;

/// Error returned when an opaque Prism reference is malformed.
#[derive(Clone, Copy, Debug, PartialEq, Eq)]
pub struct ReferenceError {
    kind: &'static str,
    reason: &'static str,
}

impl ReferenceError {
    pub closed spec fn kind_view(&self) -> Seq<char> {
        self.kind@
    }

    pub closed spec fn reason_view(&self) -> Seq<char> {
        self.reason@
    }

    fn new(kind: &'static str, reason: &'static str) -> (e: Self)
        ensures
            e.kind_view() == kind@,
            e.reason_view() == reason@,
    {
        ReferenceError { kind, reason }
    }

    /// What was being validated, such as `provider ID`.
    pub fn kind(&self) -> (r: &'static str)
        ensures
            r@ == self.kind_view(),
    {
        self.kind
    }

    /// Why the value was rejected.
    pub fn reason(&self) -> (r: &'static str)
        ensures
            r@ == self.reason_view(),
    {
        self.reason
    }

    /// The message `invalid {kind}: {reason}`.
    pub fn message(&self) -> (r: String)
        ensures
            r@ == "invalid "@ + self.kind_view() + ": "@ + self.reason_view(),
    {
        let mut s = owned("invalid ");
        push_str(&mut s, self.kind);
        push_str(&mut s, ": ");
        push_str(&mut s, self.reason);
        s
    }
}

/// Why an opaque reference is rejected, if it is.
pub open spec fn reference_problem(s: Seq<char>) -> Option<Seq<char>> {
    if s.len() == 0 {
        Some("must not be empty"@)
    } else if utf8_len(s) > 256 {
        Some("is longer than 256 bytes"@)
    } else if has_outer_white_space(s) {
        Some("must not have leading or trailing whitespace"@)
    } else if exists|i: int| 0 <= i < s.len() && is_control_char(#[trigger] s[i]) {
        Some("must not contain control characters"@)
    } else {
        None
    }
}

/// Whether a character may follow the first one in a dotted segment.
pub open spec fn segment_tail_char(c: char) -> bool {
    is_ascii_lower(c) || is_ascii_digit(c) || c == '-' || c == '_'
}

/// Why one dotted segment is rejected, if it is.
pub open spec fn segment_problem(seg: Seq<char>) -> Option<Seq<char>> {
    if seg.len() == 0 {
        Some("must not contain empty segments"@)
    } else if !(is_ascii_lower(seg[0]) || is_ascii_digit(seg[0])) {
        Some("segments must start with a lowercase ASCII letter or digit"@)
    } else if exists|i: int| 1 <= i < seg.len() && !segment_tail_char(#[trigger] seg[i]) {
        Some("contains an unsupported character"@)
    } else {
        None
    }
}

/// The problem of the first rejected segment, in order.
pub open spec fn first_segment_problem(segs: Seq<Seq<char>>) -> Option<Seq<char>>
    decreases segs.len(),
{
    if segs.len() == 0 {
        None
    } else {
        match segment_problem(segs[0]) {
            Some(r) => Some(r),
            None => first_segment_problem(segs.drop_first()),
        }
    }
}

/// Why a dotted identifier is rejected, if it is.
pub open spec fn dotted_problem(s: Seq<char>, namespace_required: bool) -> Option<Seq<char>> {
    match reference_problem(s) {
        Some(r) => Some(r),
        None => if utf8_len(s) > 128 {
            Some("is longer than 128 bytes"@)
        } else if namespace_required && split_on(s, '.').len() < 2 {
            Some("must contain a namespace"@)
        } else {
            first_segment_problem(split_on(s, '.'))
        },
    }
}

/// The outcome a validation with a given problem has.
pub open spec fn checked<T>(r: Result<T, ReferenceError>, kind: Seq<char>, problem: Option<Seq<char>>) -> bool {
    match problem {
        None => r is Ok,
        Some(reason) => r matches Err(e) && e.kind_view() == kind && e.reason_view() == reason,
    }
}

fn validate_reference(value: &str, kind: &'static str) -> (r: Result<(), ReferenceError>)
    ensures
        checked(r, kind@, reference_problem(value@)),
{
    if value.is_empty() {
        return Err(ReferenceError::new(kind, "must not be empty"));
    }
    let chars = chars_of(value);
    if utf8_longer_than(&chars, MAX_REFERENCE_LENGTH) {
        return Err(ReferenceError::new(kind, "is longer than 256 bytes"));
    }
    let n = chars.len();
    if char_is_white_space(chars[0]) || char_is_white_space(chars[n - 1]) {
        return Err(ReferenceError::new(kind, "must not have leading or trailing whitespace"));
    }
    let mut i: usize = 0;
    while i < n
        invariant
            n == chars@.len(),
            chars@ == value@,
            n > 0,
            utf8_len(value@) <= 256,
            !has_outer_white_space(value@),
            0 <= i <= n,
            forall|j: int| 0 <= j < i ==> !is_control_char(#[trigger] chars@[j]),
        decreases n - i,
    {
        if char_is_control(chars[i]) {
            assert(is_control_char(value@[i as int]));
            return Err(ReferenceError::new(kind, "must not contain control characters"));
        }
        i = i + 1;
    }
    Ok(())
}

fn segment_check(seg: &Vec<char>) -> (r: Option<&'static str>)
    ensures
        match segment_problem(seg@) {
            None => r is None,
            Some(p) => r matches Some(q) && q@ == p,
        },
{
    if seg.len() == 0 {
        return Some("must not contain empty segments");
    }
    let first = seg[0];
    if !(('a' <= first && first <= 'z') || ('0' <= first && first <= '9')) {
        return Some("segments must start with a lowercase ASCII letter or digit");
    }
    let mut i: usize = 1;
    while i < seg.len()
        invariant
            1 <= i <= seg.len(),
            is_ascii_lower(seg@[0]) || is_ascii_digit(seg@[0]),
            forall|j: int| 1 <= j < i ==> segment_tail_char(#[trigger] seg@[j]),
        decreases seg.len() - i,
    {
        let c = seg[i];
        if !(('a' <= c && c <= 'z') || ('0' <= c && c <= '9') || c == '-' || c == '_') {
            assert(!segment_tail_char(seg@[i as int]));
            return Some("contains an unsupported character");
        }
        i = i + 1;
    }
    None
}

fn validate_dotted_identifier(value: &str, kind: &'static str, namespace_required: bool) -> (r:
    Result<(), ReferenceError>)
    ensures
        checked(r, kind@, dotted_problem(value@, namespace_required)),
{
    validate_reference(value, kind)?;
    let chars = chars_of(value);
    if utf8_longer_than(&chars, MAX_DOTTED_LENGTH) {
        return Err(ReferenceError::new(kind, "is longer than 128 bytes"));
    }
    let segments = split_chars(&chars, '.');
    if namespace_required && segments.len() < 2 {
        return Err(ReferenceError::new(kind, "must contain a namespace"));
    }
    let ghost segs = split_on(value@, '.');
    assert(segs.skip(0) =~= segs);
    let mut i: usize = 0;
    while i < segments.len()
        invariant
            views_of(segments@) == segs,
            segs == split_on(value@, '.'),
            reference_problem(value@) is None,
            utf8_len(value@) <= 128,
            !(namespace_required && segs.len() < 2),
            0 <= i <= segments.len(),
            first_segment_problem(segs) == first_segment_problem(segs.skip(i as int)),
        decreases segments.len() - i,
    {
        assert(segs.skip(i as int).drop_first() =~= segs.skip(i + 1));
        assert(segs.skip(i as int)[0] == segments@[i as int]@);
        match segment_check(&segments[i]) {
            Some(reason) => {
                return Err(ReferenceError::new(kind, reason));
            },
            None => {},
        }
        i = i + 1;
    }
    assert(segs.skip(i as int) =~= Seq::<Seq<char>>::empty());
    Ok(())
}

/// Whether a character may start a dotted segment.
pub open spec fn segment_head_char(c: char) -> bool {
    is_ascii_lower(c) || is_ascii_digit(c)
}

/// Whether a string is a dotted identifier written plainly: at most 128
/// characters, each a segment character or a dot, starting with a segment
/// head, and every dot followed by a segment head.
pub open spec fn plain_dotted(s: Seq<char>) -> bool {
    &&& 0 < s.len() <= 128
    &&& segment_head_char(s[0])
    &&& forall|i: int| 0 <= i < s.len() ==> segment_tail_char(#[trigger] s[i]) || s[i] == '.'
    &&& forall|i: int|
        0 <= i < s.len() && #[trigger] s[i] == '.' ==> i + 1 < s.len() && segment_head_char(s[i + 1])
}

proof fn lemma_plain_ascii(s: Seq<char>)
    requires
        forall|i: int| 0 <= i < s.len() ==> segment_tail_char(#[trigger] s[i]) || s[i] == '.',
    ensures
        utf8_len(s) == s.len(),
    decreases s.len(),
{
    if s.len() > 0 {
        assert(segment_tail_char(s[s.len() - 1]) || s[s.len() - 1] == '.');
        assert forall|i: int| 0 <= i < s.drop_last().len() implies segment_tail_char(
            #[trigger] s.drop_last()[i],
        ) || s.drop_last()[i] == '.' by {
            assert(s.drop_last()[i] == s[i]);
        }
        lemma_plain_ascii(s.drop_last());
    }
}

proof fn lemma_plain_segments(s: Seq<char>, k: int)
    requires
        plain_dotted(s),
        0 <= k <= s.len(),
    ensures
        ({
            let sp = split_on(s.take(k), '.');
            &&& sp.len() >= 1
            &&& forall|j: int| 0 <= j < sp.len() - 1 ==> segment_problem(#[trigger] sp[j]) is None
            &&& forall|i: int| 0 <= i < sp.last().len() ==> segment_tail_char(#[trigger] sp.last()[i])
            &&& sp.last().len() > 0 ==> segment_head_char(sp.last()[0])
            &&& (sp.last().len() == 0) == (k == 0 || s[k - 1] == '.')
            &&& (exists|i: int| 0 <= i < k && s[i] == '.') ==> sp.len() >= 2
        }),
    decreases k,
{
    crate::text::lemma_split_on_nonempty(s.take(k), '.');
    if k > 0 {
        lemma_plain_segments(s, k - 1);
        let t = s.take(k);
        assert(t.drop_last() =~= s.take(k - 1));
        assert(t.last() == s[k - 1]);
        let prev = split_on(s.take(k - 1), '.');
        let sp = split_on(t, '.');
        if s[k - 1] == '.' {
            assert(sp == prev.push(Seq::<char>::empty()));
            if k - 1 == 0 {
                assert(segment_head_char(s[0]));
            } else {
                if s[k - 2] == '.' {
                    assert(segment_head_char(s[k - 1]));
                }
            }
            assert(prev.last().len() > 0);
            assert(segment_problem(prev.last()) is None);
            assert forall|j: int| 0 <= j < sp.len() - 1 implies segment_problem(#[trigger] sp[j]) is None by {
                if j < prev.len() - 1 {
                    assert(sp[j] == prev[j]);
                } else {
                    assert(sp[j] == prev.last());
                }
            }
        } else {
            let last = prev.last().push(s[k - 1]);
            assert(sp == prev.update(prev.len() - 1, last));
            assert(segment_tail_char(s[k - 1]));
            if prev.last().len() == 0 {
                if k - 1 == 0 {
                } else {
                    assert(s[k - 2] == '.');
                    assert(segment_head_char(s[k - 1]));
                }
            } else {
                assert(last[0] == prev.last()[0]);
            }
            assert forall|i: int| 0 <= i < sp.last().len() implies segment_tail_char(#[trigger] sp.last()[i]) by {
                if i < prev.last().len() {
                    assert(sp.last()[i] == prev.last()[i]);
                }
            }
            assert forall|j: int| 0 <= j < sp.len() - 1 implies segment_problem(#[trigger] sp[j]) is None by {
                assert(sp[j] == prev[j]);
            }
            if exists|i: int| 0 <= i < k && s[i] == '.' {
                let i = choose|i: int| 0 <= i < k && s[i] == '.';
                assert(i < k - 1);
            }
        }
    }
}

proof fn lemma_all_segments_fine(segs: Seq<Seq<char>>)
    requires
        forall|j: int| 0 <= j < segs.len() ==> segment_problem(#[trigger] segs[j]) is None,
    ensures
        first_segment_problem(segs) is None,
    decreases segs.len(),
{
    if segs.len() > 0 {
        assert(segment_problem(segs[0]) is None);
        assert forall|j: int| 0 <= j < segs.drop_first().len() implies segment_problem(
            #[trigger] segs.drop_first()[j],
        ) is None by {
            assert(segs.drop_first()[j] == segs[j + 1]);
        }
        lemma_all_segments_fine(segs.drop_first());
    }
}

/// A plainly written dotted identifier passes validation; with a dot it also
/// has a namespace.
pub proof fn lemma_plain_dotted_valid(s: Seq<char>, namespace_required: bool)
    requires
        plain_dotted(s),
        namespace_required ==> exists|i: int| 0 <= i < s.len() && s[i] == '.',
    ensures
        dotted_problem(s, namespace_required) is None,
{
    lemma_plain_ascii(s);
    lemma_plain_segments(s, s.len() as int);
    assert(s.take(s.len() as int) =~= s);
    let sp = split_on(s, '.');
    assert(s[s.len() - 1] != '.');
    assert(segment_problem(sp.last()) is None);
    assert forall|j: int| 0 <= j < sp.len() implies segment_problem(#[trigger] sp[j]) is None by {
        if j == sp.len() - 1 {
        }
    }
    lemma_all_segments_fine(sp);
    assert(!is_white_space(s[0]));
    assert(segment_tail_char(s[s.len() - 1]));
    assert(!is_white_space(s[s.len() - 1]));
    assert forall|i: int| 0 <= i < s.len() implies !is_control_char(#[trigger] s[i]) by {
        assert(segment_tail_char(s[i]) || s[i] == '.');
    }
}

/// Whether the key lies in the namespace of `provider`: it begins with the
/// provider identifier followed by a dot.
pub open spec fn scoped_to(key: Seq<char>, provider: Seq<char>) -> bool {
    &&& provider.len() < key.len()
    &&& key.subrange(0, provider.len() as int) == provider
    &&& key[provider.len() as int] == '.'
}

/// Whether a character separates the words of a key.
pub open spec fn is_word_separator(c: char) -> bool {
    c == '.' || c == '_' || c == '-'
}

/// Whether the word `w` stands whole in `key` at position `i`: preceded by
/// the start of the key or a separator, followed by its end or a separator.
pub open spec fn whole_word_at(key: Seq<char>, i: int, w: Seq<char>) -> bool {
    &&& 0 <= i
    &&& i + w.len() <= key.len()
    &&& key.subrange(i, i + w.len()) == w
    &&& (i == 0 || is_word_separator(key[i - 1]))
    &&& (i + w.len() == key.len() || is_word_separator(key[i + w.len()]))
}

/// Whether a secret word (`authorization`, `credential`, `password`,
/// `secret` or `token`) stands whole in the key at position `i`.
pub open spec fn secret_word_at(key: Seq<char>, i: int) -> bool {
    ||| whole_word_at(key, i, "authorization"@)
    ||| whole_word_at(key, i, "credential"@)
    ||| whole_word_at(key, i, "password"@)
    ||| whole_word_at(key, i, "secret"@)
    ||| whole_word_at(key, i, "token"@)
}

/// Whether a key names a credential: one of its words, the parts between
/// dots, underscores and hyphens, is a secret word. Compound segments such as
/// `access_token` count.
pub open spec fn secret_bearing(key: Seq<char>) -> bool {
    exists|i: int| 0 <= i < key.len() && #[trigger] secret_word_at(key, i)
}

/// A key that holds `authorization`, `credential`, `password`, `secret` or
/// `token` as a whole word (after the key's start or a `.`, `_` or `-`, and
/// before the key's end or one of those) is secret-bearing.
pub proof fn lemma_secret_words_are_secret_bearing(prefix: Seq<char>, word: Seq<char>, suffix: Seq<char>)
    requires
        word == "authorization"@ || word == "credential"@ || word == "password"@ || word == "secret"@
            || word == "token"@,
        prefix.len() == 0 || prefix.last() == '.' || prefix.last() == '_' || prefix.last() == '-',
        suffix.len() == 0 || suffix[0] == '.' || suffix[0] == '_' || suffix[0] == '-',
    ensures
        secret_bearing(prefix + word + suffix),
{
    reveal_strlit("authorization");
    reveal_strlit("credential");
    reveal_strlit("password");
    reveal_strlit("secret");
    reveal_strlit("token");
    let key = prefix + word + suffix;
    let i = prefix.len() as int;
    assert(key.subrange(i, i + word.len()) =~= word);
    if i > 0 {
        assert(key[i - 1] == prefix.last());
    }
    if i + word.len() < key.len() {
        assert(key[i + word.len()] == suffix[0]);
    }
    assert(secret_word_at(key, i));
}

/// A key in which none of the secret words occurs, even inside a longer
/// word, is not secret-bearing.
pub proof fn lemma_keys_without_secret_words(key: Seq<char>)
    requires
        forall|i: int, j: int|
            0 <= i <= j <= key.len() ==> {
                let w = #[trigger] key.subrange(i, j);
                &&& w != "authorization"@
                &&& w != "credential"@
                &&& w != "password"@
                &&& w != "secret"@
                &&& w != "token"@
            },
    ensures
        !secret_bearing(key),
{
    if secret_bearing(key) {
        let i = choose|i: int| 0 <= i < key.len() && #[trigger] secret_word_at(key, i);
        if whole_word_at(key, i, "authorization"@) {
            assert(key.subrange(i, i + "authorization"@.len()) == "authorization"@);
        } else if whole_word_at(key, i, "credential"@) {
            assert(key.subrange(i, i + "credential"@.len()) == "credential"@);
        } else if whole_word_at(key, i, "password"@) {
            assert(key.subrange(i, i + "password"@.len()) == "password"@);
        } else if whole_word_at(key, i, "secret"@) {
            assert(key.subrange(i, i + "secret"@.len()) == "secret"@);
        } else {
            assert(key.subrange(i, i + "token"@.len()) == "token"@);
        }
    }
}

fn is_separator(c: char) -> (r: bool)
    ensures
        r == is_word_separator(c),
{
    c == '.' || c == '_' || c == '-'
}

/// Whether `w` stands whole in `chars` at position `i`.
fn word_at(chars: &Vec<char>, i: usize, w: &Vec<char>) -> (r: bool)
    requires
        i <= chars.len(),
    ensures
        r == whole_word_at(chars@, i as int, w@),
{
    if w.len() > chars.len() - i {
        return false;
    }
    let end = i + w.len();
    let mut j: usize = 0;
    while j < w.len()
        invariant
            i + w.len() == end <= chars.len(),
            j <= w.len(),
            chars@.subrange(i as int, (i + j) as int) =~= w@.subrange(0, j as int),
        decreases w.len() - j,
    {
        if chars[i + j] != w[j] {
            assert(chars@.subrange(i as int, end as int)[j as int] != w@[j as int]);
            return false;
        }
        j = j + 1;
    }
    assert(w@.subrange(0, w.len() as int) =~= w@);
    let before = i == 0 || is_separator(chars[i - 1]);
    let after = end == chars.len() || is_separator(chars[end]);
    before && after
}

/// Whether a secret word stands whole in `chars` at position `i`.
fn secret_at(chars: &Vec<char>, i: usize) -> (r: bool)
    requires
        i <= chars.len(),
    ensures
        r == secret_word_at(chars@, i as int),
{
    word_at(chars, i, &chars_of("authorization")) || word_at(chars, i, &chars_of("credential"))
        || word_at(chars, i, &chars_of("password")) || word_at(chars, i, &chars_of("secret"))
        || word_at(chars, i, &chars_of("token"))
}

/// Stable provider identity such as `instagram` or `meta.threads`.
#[derive(Debug, PartialEq, Eq, Hash, PartialOrd, Ord)]
pub struct ProviderId(String);

impl View for ProviderId {
    type V = Seq<char>;

    closed spec fn view(&self) -> Seq<char> {
        self.0@
    }
}

impl Clone for ProviderId {
    fn clone(&self) -> (r: Self)
        ensures
            r == *self,
    {
        ProviderId(self.0.clone())
    }
}

impl ProviderId {
    /// Creates a validated provider identifier: a dotted identifier of
    /// lowercase ASCII segments.
    pub fn new(value: &str) -> (r: Result<Self, ReferenceError>)
        ensures
            checked(r, "provider ID"@, dotted_problem(value@, false)),
            r matches Ok(id) ==> id@ == value@,
    {
        match validate_dotted_identifier(value, "provider ID", false) {
            Ok(()) => Ok(ProviderId(owned(value))),
            Err(e) => Err(e),
        }
    }

    /// An identifier known to be valid, such as a checked literal.
    pub(crate) fn from_valid(value: &str) -> (r: Self)
        requires
            dotted_problem(value@, false) is None,
        ensures
            r@ == value@,
    {
        ProviderId(owned(value))
    }

    /// Returns the identifier as a string slice.
    pub fn as_str(&self) -> (r: &str)
        ensures
            r@ == self@,
    {
        self.0.as_str()
    }

    /// Whether two identifiers are the same.
    pub fn same(&self, other: &Self) -> (r: bool)
        ensures
            r == (self@ == other@),
    {
        self.0 == other.0
    }
}

/// Key for a provider or Prism extension, for example `meta.instagram.location_id`.
#[derive(Debug, PartialEq, Eq, Hash, PartialOrd, Ord)]
pub struct NamespacedKey(String);

impl View for NamespacedKey {
    type V = Seq<char>;

    closed spec fn view(&self) -> Seq<char> {
        self.0@
    }
}

impl Clone for NamespacedKey {
    fn clone(&self) -> (r: Self)
        ensures
            r == *self,
    {
        NamespacedKey(self.0.clone())
    }
}

impl NamespacedKey {
    /// Creates a dotted extension key. At least two segments are required.
    pub fn new(value: &str) -> (r: Result<Self, ReferenceError>)
        ensures
            checked(r, "namespaced key"@, dotted_problem(value@, true)),
            r matches Ok(k) ==> k@ == value@,
    {
        match validate_dotted_identifier(value, "namespaced key", true) {
            Ok(()) => Ok(NamespacedKey(owned(value))),
            Err(e) => Err(e),
        }
    }

    /// A key known to be valid, such as a checked literal.
    pub(crate) fn from_valid(value: &str) -> (r: Self)
        requires
            dotted_problem(value@, true) is None,
        ensures
            r@ == value@,
    {
        NamespacedKey(owned(value))
    }

    /// Returns the key as a string slice.
    pub fn as_str(&self) -> (r: &str)
        ensures
            r@ == self@,
    {
        self.0.as_str()
    }

    /// Whether two keys are the same.
    pub fn same(&self, other: &Self) -> (r: bool)
        ensures
            r == (self@ == other@),
    {
        self.0 == other.0
    }

    /// Returns whether this key belongs to the provider namespace.
    pub fn is_scoped_to(&self, provider: &ProviderId) -> (r: bool)
        ensures
            r == scoped_to(self@, provider@),
    {
        let key = chars_of(self.0.as_str());
        let p = chars_of(provider.as_str());
        if p.len() >= key.len() {
            return false;
        }
        let mut i: usize = 0;
        while i < p.len()
            invariant
                key@ == self@,
                p@ == provider@,
                p.len() < key.len(),
                0 <= i <= p.len(),
                forall|j: int| 0 <= j < i ==> key@[j] == p@[j],
            decreases p.len() - i,
        {
            if key[i] != p[i] {
                assert(key@.subrange(0, p@.len() as int)[i as int] != p@[i as int]);
                assert(key@.subrange(0, p@.len() as int) != p@);
                return false;
            }
            i = i + 1;
        }
        assert(key@.subrange(0, p@.len() as int) =~= p@);
        key[p.len()] == '.'
    }

    /// Flags fields that must use credential resolution rather than options:
    /// some word of the key, between dots, underscores and hyphens, is
    /// `authorization`, `credential`, `password`, `secret` or `token`.
    pub fn looks_secret_bearing(&self) -> (r: bool)
        ensures
            r == secret_bearing(self@),
    {
        let chars = chars_of(self.0.as_str());
        let mut i: usize = 0;
        while i < chars.len()
            invariant
                chars@ == self@,
                0 <= i <= chars.len(),
                forall|j: int| 0 <= j < i ==> !#[trigger] secret_word_at(self@, j),
            decreases chars.len() - i,
        {
            if secret_at(&chars, i) {
                return true;
            }
            i = i + 1;
        }
        false
    }
}

/// Opaque reference to a configured provider channel.
#[derive(Debug, PartialEq, Eq, Hash, PartialOrd, Ord)]
pub struct ChannelRef(String);

impl View for ChannelRef {
    type V = Seq<char>;

    closed spec fn view(&self) -> Seq<char> {
        self.0@
    }
}

impl Clone for ChannelRef {
    fn clone(&self) -> (r: Self)
        ensures
            r == *self,
    {
        ChannelRef(self.0.clone())
    }
}

impl ChannelRef {
    /// Creates a validated opaque reference.
    pub fn new(value: &str) -> (r: Result<Self, ReferenceError>)
        ensures
            checked(r, "channel reference"@, reference_problem(value@)),
            r matches Ok(x) ==> x@ == value@,
    {
        match validate_reference(value, "channel reference") {
            Ok(()) => Ok(ChannelRef(owned(value))),
            Err(e) => Err(e),
        }
    }

    /// Returns the reference as a string slice.
    pub fn as_str(&self) -> (r: &str)
        ensures
            r@ == self@,
    {
        self.0.as_str()
    }

    /// Whether two references are the same.
    pub fn same(&self, other: &Self) -> (r: bool)
        ensures
            r == (self@ == other@),
    {
        self.0 == other.0
    }
}

impl core::str::FromStr for ChannelRef {
    type Err = ReferenceError;

    fn from_str(value: &str) -> (r: Result<Self, Self::Err>)
        ensures
            checked(r, "channel reference"@, reference_problem(value@)),
            r matches Ok(x) ==> x@ == value@,
    {
        Self::new(value)
    }
}

/// Opaque reference resolved by a provider adapter; never a raw secret.
#[derive(Debug, PartialEq, Eq, Hash, PartialOrd, Ord)]
pub struct CredentialRef(String);

impl View for CredentialRef {
    type V = Seq<char>;

    closed spec fn view(&self) -> Seq<char> {
        self.0@
    }
}

impl Clone for CredentialRef {
    fn clone(&self) -> (r: Self)
        ensures
            r == *self,
    {
        CredentialRef(self.0.clone())
    }
}

impl CredentialRef {
    /// Creates a validated opaque reference.
    pub fn new(value: &str) -> (r: Result<Self, ReferenceError>)
        ensures
            checked(r, "credential reference"@, reference_problem(value@)),
            r matches Ok(x) ==> x@ == value@,
    {
        match validate_reference(value, "credential reference") {
            Ok(()) => Ok(CredentialRef(owned(value))),
            Err(e) => Err(e),
        }
    }

    /// Returns the reference as a string slice.
    pub fn as_str(&self) -> (r: &str)
        ensures
            r@ == self@,
    {
        self.0.as_str()
    }

    /// Whether two references are the same.
    pub fn same(&self, other: &Self) -> (r: bool)
        ensures
            r == (self@ == other@),
    {
        self.0 == other.0
    }
}

impl core::str::FromStr for CredentialRef {
    type Err = ReferenceError;

    fn from_str(value: &str) -> (r: Result<Self, Self::Err>)
        ensures
            checked(r, "credential reference"@, reference_problem(value@)),
            r matches Ok(x) ==> x@ == value@,
    {
        Self::new(value)
    }
}

/// Caller-owned idempotency key for one logical publication.
#[derive(Debug, PartialEq, Eq, Hash, PartialOrd, Ord)]
pub struct IdempotencyKey(String);

impl View for IdempotencyKey {
    type V = Seq<char>;

    closed spec fn view(&self) -> Seq<char> {
        self.0@
    }
}

impl Clone for IdempotencyKey {
    fn clone(&self) -> (r: Self)
        ensures
            r == *self,
    {
        IdempotencyKey(self.0.clone())
    }
}

impl IdempotencyKey {
    /// Creates a validated opaque reference.
    pub fn new(value: &str) -> (r: Result<Self, ReferenceError>)
        ensures
            checked(r, "idempotency key"@, reference_problem(value@)),
            r matches Ok(x) ==> x@ == value@,
    {
        match validate_reference(value, "idempotency key") {
            Ok(()) => Ok(IdempotencyKey(owned(value))),
            Err(e) => Err(e),
        }
    }

    /// Returns the reference as a string slice.
    pub fn as_str(&self) -> (r: &str)
        ensures
            r@ == self@,
    {
        self.0.as_str()
    }

    /// Whether two references are the same.
    pub fn same(&self, other: &Self) -> (r: bool)
        ensures
            r == (self@ == other@),
    {
        self.0 == other.0
    }
}

impl core::str::FromStr for IdempotencyKey {
    type Err = ReferenceError;

    fn from_str(value: &str) -> (r: Result<Self, Self::Err>)
        ensures
            checked(r, "idempotency key"@, reference_problem(value@)),
            r matches Ok(x) ==> x@ == value@,
    {
        Self::new(value)
    }
}

/// Opaque reference to media resolved outside the core domain.
#[derive(Debug, PartialEq, Eq, Hash, PartialOrd, Ord)]
pub struct MediaRef(String);

impl View for MediaRef {
    type V = Seq<char>;

    closed spec fn view(&self) -> Seq<char> {
        self.0@
    }
}

impl Clone for MediaRef {
    fn clone(&self) -> (r: Self)
        ensures
            r == *self,
    {
        MediaRef(self.0.clone())
    }
}

impl MediaRef {
    /// Creates a validated opaque reference.
    pub fn new(value: &str) -> (r: Result<Self, ReferenceError>)
        ensures
            checked(r, "media reference"@, reference_problem(value@)),
            r matches Ok(x) ==> x@ == value@,
    {
        match validate_reference(value, "media reference") {
            Ok(()) => Ok(MediaRef(owned(value))),
            Err(e) => Err(e),
        }
    }

    /// Returns the reference as a string slice.
    pub fn as_str(&self) -> (r: &str)
        ensures
            r@ == self@,
    {
        self.0.as_str()
    }

    /// Whether two references are the same.
    pub fn same(&self, other: &Self) -> (r: bool)
        ensures
            r == (self@ == other@),
    {
        self.0 == other.0
    }
}

impl core::str::FromStr for MediaRef {
    type Err = ReferenceError;

    fn from_str(value: &str) -> (r: Result<Self, Self::Err>)
        ensures
            checked(r, "media reference"@, reference_problem(value@)),
            r matches Ok(x) ==> x@ == value@,
    {
        Self::new(value)
    }
}

/// Correlation identifier supplied by the caller.
#[derive(Debug, PartialEq, Eq, Hash, PartialOrd, Ord)]
pub struct RequestId(String);

impl View for RequestId {
    type V = Seq<char>;

    closed spec fn view(&self) -> Seq<char> {
        self.0@
    }
}

impl Clone for RequestId {
    fn clone(&self) -> (r: Self)
        ensures
            r == *self,
    {
        RequestId(self.0.clone())
    }
}

impl RequestId {
    /// Creates a validated opaque reference.
    pub fn new(value: &str) -> (r: Result<Self, ReferenceError>)
        ensures
            checked(r, "request ID"@, reference_problem(value@)),
            r matches Ok(x) ==> x@ == value@,
    {
        match validate_reference(value, "request ID") {
            Ok(()) => Ok(RequestId(owned(value))),
            Err(e) => Err(e),
        }
    }

    /// An identifier known to be valid.
    pub(crate) fn from_valid(value: &str) -> (r: Self)
        requires
            reference_problem(value@) is None,
        ensures
            r@ == value@,
    {
        RequestId(owned(value))
    }

    /// Returns the reference as a string slice.
    pub fn as_str(&self) -> (r: &str)
        ensures
            r@ == self@,
    {
        self.0.as_str()
    }

    /// Whether two references are the same.
    pub fn same(&self, other: &Self) -> (r: bool)
        ensures
            r == (self@ == other@),
    {
        self.0 == other.0
    }
}

impl core::str::FromStr for RequestId {
    type Err = ReferenceError;

    fn from_str(value: &str) -> (r: Result<Self, Self::Err>)
        ensures
            checked(r, "request ID"@, reference_problem(value@)),
            r matches Ok(x) ==> x@ == value@,
    {
        Self::new(value)
    }
}

/// Identifier unique within one publish request.
#[derive(Debug, PartialEq, Eq, Hash, PartialOrd, Ord)]
pub struct TargetId(String);

impl View for TargetId {
    type V = Seq<char>;

    closed spec fn view(&self) -> Seq<char> {
        self.0@
    }
}

impl Clone for TargetId {
    fn clone(&self) -> (r: Self)
        ensures
            r == *self,
    {
        TargetId(self.0.clone())
    }
}

impl TargetId {
    /// Creates a validated opaque reference.
    pub fn new(value: &str) -> (r: Result<Self, ReferenceError>)
        ensures
            checked(r, "target ID"@, reference_problem(value@)),
            r matches Ok(x) ==> x@ == value@,
    {
        match validate_reference(value, "target ID") {
            Ok(()) => Ok(TargetId(owned(value))),
            Err(e) => Err(e),
        }
    }

    /// Returns the reference as a string slice.
    pub fn as_str(&self) -> (r: &str)
        ensures
            r@ == self@,
    {
        self.0.as_str()
    }

    /// Whether two references are the same.
    pub fn same(&self, other: &Self) -> (r: bool)
        ensures
            r == (self@ == other@),
    {
        self.0 == other.0
    }
}

impl core::str::FromStr for TargetId {
    type Err = ReferenceError;

    fn from_str(value: &str) -> (r: Result<Self, Self::Err>)
        ensures
            checked(r, "target ID"@, reference_problem(value@)),
            r matches Ok(x) ==> x@ == value@,
    {
        Self::new(value)
    }
}

/// Identifier unique within one publish request.
#[derive(Debug, PartialEq, Eq, Hash, PartialOrd, Ord)]
pub struct VariantId(String);

impl View for VariantId {
    type V = Seq<char>;

    closed spec fn view(&self) -> Seq<char> {
        self.0@
    }
}

impl Clone for VariantId {
    fn clone(&self) -> (r: Self)
        ensures
            r == *self,
    {
        VariantId(self.0.clone())
    }
}

impl VariantId {
    /// Creates a validated opaque reference.
    pub fn new(value: &str) -> (r: Result<Self, ReferenceError>)
        ensures
            checked(r, "variant ID"@, reference_problem(value@)),
            r matches Ok(x) ==> x@ == value@,
    {
        match validate_reference(value, "variant ID") {
            Ok(()) => Ok(VariantId(owned(value))),
            Err(e) => Err(e),
        }
    }

    /// Returns the reference as a string slice.
    pub fn as_str(&self) -> (r: &str)
        ensures
            r@ == self@,
    {
        self.0.as_str()
    }

    /// Whether two references are the same.
    pub fn same(&self, other: &Self) -> (r: bool)
        ensures
            r == (self@ == other@),
    {
        self.0 == other.0
    }
}

impl core::str::FromStr for VariantId {
    type Err = ReferenceError;

    fn from_str(value: &str) -> (r: Result<Self, Self::Err>)
        ensures
            checked(r, "variant ID"@, reference_problem(value@)),
            r matches Ok(x) ==> x@ == value@,
    {
        Self::new(value)
    }
}

/// Reference to a voice or style profile, independent from locale.
#[derive(Debug, PartialEq, Eq, Hash, PartialOrd, Ord)]
pub struct VoiceProfileRef(String);

impl View for VoiceProfileRef {
    type V = Seq<char>;

    closed spec fn view(&self) -> Seq<char> {
        self.0@
    }
}

impl Clone for VoiceProfileRef {
    fn clone(&self) -> (r: Self)
        ensures
            r == *self,
    {
        VoiceProfileRef(self.0.clone())
    }
}

impl VoiceProfileRef {
    /// Creates a validated opaque reference.
    pub fn new(value: &str) -> (r: Result<Self, ReferenceError>)
        ensures
            checked(r, "voice profile reference"@, reference_problem(value@)),
            r matches Ok(x) ==> x@ == value@,
    {
        match validate_reference(value, "voice profile reference") {
            Ok(()) => Ok(VoiceProfileRef(owned(value))),
            Err(e) => Err(e),
        }
    }

    /// Returns the reference as a string slice.
    pub fn as_str(&self) -> (r: &str)
        ensures
            r@ == self@,
    {
        self.0.as_str()
    }

    /// Whether two references are the same.
    pub fn same(&self, other: &Self) -> (r: bool)
        ensures
            r == (self@ == other@),
    {
        self.0 == other.0
    }
}

impl core::str::FromStr for VoiceProfileRef {
    type Err = ReferenceError;

    fn from_str(value: &str) -> (r: Result<Self, Self::Err>)
        ensures
            checked(r, "voice profile reference"@, reference_problem(value@)),
            r matches Ok(x) ==> x@ == value@,
    {
        Self::new(value)
    }
}

impl core::str::FromStr for ProviderId {
    type Err = ReferenceError;

    fn from_str(value: &str) -> (r: Result<Self, Self::Err>)
        ensures
            checked(r, "provider ID"@, dotted_problem(value@, false)),
            r matches Ok(id) ==> id@ == value@,
    {
        Self::new(value)
    }
}

impl core::str::FromStr for NamespacedKey {
    type Err = ReferenceError;

    fn from_str(value: &str) -> (r: Result<Self, Self::Err>)
        ensures
            checked(r, "namespaced key"@, dotted_problem(value@, true)),
            r matches Ok(k) ==> k@ == value@,
    {
        Self::new(value)
    }
}

/// What `language_tags::LanguageTag::parse` yields for an input, written out
/// with `to_string`: the tag's serialization when the input is a well-formed
/// BCP-47 tag, and nothing otherwise.
pub uninterp spec fn bcp47_parse(input: Seq<char>) -> Option<Seq<char>>;

/// Parses a BCP-47 tag with `language_tags::LanguageTag::parse` and renders
/// the parsed tag with its `Display` impl. Trusted: the result is what the
/// crate computes for the input, named by `bcp47_parse`; nothing more of the
/// parser's grammar is stated.
#[verifier::external_body]
fn parse_language_tag(value: &str) -> (r: Option<String>)
    ensures
        match r {
            Some(t) => bcp47_parse(value@) == Some(t@),
            None => bcp47_parse(value@) is None,
        },
{
    match value.parse::<language_tags::LanguageTag>() {
        Ok(tag) => Some(tag.to_string()),
        Err(_) => None,
    }
}

/// A BCP-47 locale tag. Voice/style profiles are intentionally separate.
#[derive(Debug, PartialEq, Eq, Hash, PartialOrd, Ord)]
pub struct LocaleTag(String);

impl View for LocaleTag {
    type V = Seq<char>;

    closed spec fn view(&self) -> Seq<char> {
        self.0@
    }
}

impl Clone for LocaleTag {
    fn clone(&self) -> (r: Self)
        ensures
            r == *self,
    {
        LocaleTag(self.0.clone())
    }
}

impl LocaleTag {
    /// Parses and canonicalizes a well-formed BCP-47 tag.
    pub fn new(value: &str) -> (r: Result<Self, ReferenceError>)
        ensures
            match bcp47_parse(value@) {
                Some(t) => r matches Ok(tag) && tag@ == t,
                None => r matches Err(e) && e.kind_view() == "locale tag"@ && e.reason_view()
                    == "must be a well-formed BCP-47 tag"@,
            },
    {
        Self::from_parsed(parse_language_tag(value))
    }

    /// Builds the tag from the parser's rendering of the input, or rejects the
    /// input when the parser found it malformed.
    pub fn from_parsed(parsed: Option<String>) -> (r: Result<Self, ReferenceError>)
        ensures
            match parsed {
                Some(t) => r matches Ok(tag) && tag@ == t@,
                None => r matches Err(e) && e.kind_view() == "locale tag"@ && e.reason_view()
                    == "must be a well-formed BCP-47 tag"@,
            },
    {
        match parsed {
            Some(t) => Ok(LocaleTag(t)),
            None => Err(ReferenceError::new("locale tag", "must be a well-formed BCP-47 tag")),
        }
    }

    /// Returns the canonical tag.
    pub fn as_str(&self) -> (r: &str)
        ensures
            r@ == self@,
    {
        self.0.as_str()
    }
}

impl core::str::FromStr for LocaleTag {
    type Err = ReferenceError;

    fn from_str(value: &str) -> (r: Result<Self, Self::Err>)
        ensures
            match bcp47_parse(value@) {
                Some(t) => r matches Ok(tag) && tag@ == t,
                None => r matches Err(e) && e.kind_view() == "locale tag"@ && e.reason_view()
                    == "must be a well-formed BCP-47 tag"@,
            },
    {
        Self::new(value)
    }
}

} // verus!
