//! Structured validation issues.

use vstd::prelude::*;

use crate::text::owned;

verus! {

/// Severity of a deterministic validation issue.
#[derive(Clone, Copy, Debug, PartialEq, Eq, Structural)]
pub enum ValidationSeverity {
    /// Prevents the target or request from being dispatched.
    Error,
    /// Preserves a non-blocking provider or content warning.
    Warning,
}

/// Stable validation code plus a safe human-readable explanation.
#[derive(Debug, PartialEq, Eq)]
pub struct ValidationIssue {
    /// Machine-stable code.
    pub code: String,
    /// JSON-pointer-like location in the request.
    pub path: String,
    /// Safe explanation that does not reproduce content or secrets.
    pub message: String,
    /// Whether the issue blocks dispatch.
    pub severity: ValidationSeverity,
}

impl Clone for ValidationIssue {
    fn clone(&self) -> (r: Self)
        ensures
            r == *self,
    {
        ValidationIssue {
            code: self.code.clone(),
            path: self.path.clone(),
            message: self.message.clone(),
            severity: self.severity,
        }
    }
}

/// The text of an issue.
pub ghost struct IssueView {
    pub code: Seq<char>,
    pub path: Seq<char>,
    pub message: Seq<char>,
    pub severity: ValidationSeverity,
}

impl View for ValidationIssue {
    type V = IssueView;

    open spec fn view(&self) -> IssueView {
        IssueView {
            code: self.code@,
            path: self.path@,
            message: self.message@,
            severity: self.severity,
        }
    }
}

/// A blocking issue with the given text.
pub open spec fn error_issue(code: Seq<char>, path: Seq<char>, message: Seq<char>) -> IssueView {
    IssueView { code, path, message, severity: ValidationSeverity::Error }
}

/// Whether a list of issues holds a blocking issue with the code at the path.
pub open spec fn raises(issues: Seq<IssueView>, code: Seq<char>, path: Seq<char>) -> bool {
    exists|k: int|
        0 <= k < issues.len() && (#[trigger] issues[k]).code == code && issues[k].path == path
            && issues[k].severity == ValidationSeverity::Error
}

/// An issue raised by a part of a list is raised by the whole list.
pub proof fn lemma_raises_concat(a: Seq<IssueView>, b: Seq<IssueView>, code: Seq<char>, path: Seq<char>)
    requires
        raises(a, code, path) || raises(b, code, path),
    ensures
        raises(a + b, code, path),
{
    if raises(a, code, path) {
        let k = choose|k: int|
            0 <= k < a.len() && (#[trigger] a[k]).code == code && a[k].path == path && a[k].severity
                == ValidationSeverity::Error;
        assert((a + b)[k] == a[k]);
    } else {
        let k = choose|k: int|
            0 <= k < b.len() && (#[trigger] b[k]).code == code && b[k].path == path && b[k].severity
                == ValidationSeverity::Error;
        assert((a + b)[a.len() + k] == b[k]);
    }
}

/// The error built from a code and a path is raised by a list holding it.
pub proof fn lemma_raises_single(i: IssueView, code: Seq<char>, path: Seq<char>)
    requires
        i.code == code,
        i.path == path,
        i.severity == ValidationSeverity::Error,
    ensures
        raises(seq![i], code, path),
{
    assert(seq![i][0] == i);
}

/// The texts of a list of issues.
pub open spec fn issue_views(issues: Seq<ValidationIssue>) -> Seq<IssueView> {
    issues.map_values(|i: ValidationIssue| i@)
}

/// Whether some issue in the list blocks dispatch.
pub open spec fn has_error(issues: Seq<IssueView>) -> bool {
    exists|i: int| 0 <= i < issues.len() && #[trigger] issues[i].severity == ValidationSeverity::Error
}

impl ValidationIssue {
    /// Creates a blocking issue.
    pub fn error(code: &str, path: &str, message: &str) -> (r: Self)
        ensures
            r@ == error_issue(code@, path@, message@),
    {
        ValidationIssue {
            code: owned(code),
            path: owned(path),
            message: owned(message),
            severity: ValidationSeverity::Error,
        }
    }

    /// Creates a non-blocking issue.
    pub fn warning(code: &str, path: &str, message: &str) -> (r: Self)
        ensures
            r@ == (IssueView {
                code: code@,
                path: path@,
                message: message@,
                severity: ValidationSeverity::Warning,
            }),
    {
        ValidationIssue {
            code: owned(code),
            path: owned(path),
            message: owned(message),
            severity: ValidationSeverity::Warning,
        }
    }

    /// Returns whether this issue prevents dispatch.
    pub fn is_error(&self) -> (r: bool)
        ensures
            r == (self.severity == ValidationSeverity::Error),
    {
        self.severity == ValidationSeverity::Error
    }
}

/// Whether some issue in the list blocks dispatch.
pub fn any_error(issues: &Vec<ValidationIssue>) -> (r: bool)
    ensures
        r == has_error(issue_views(issues@)),
{
    let mut i: usize = 0;
    while i < issues.len()
        invariant
            0 <= i <= issues.len(),
            forall|j: int| 0 <= j < i ==> issues@[j].severity != ValidationSeverity::Error,
        decreases issues.len() - i,
    {
        if issues[i].is_error() {
            assert(issue_views(issues@)[i as int].severity == ValidationSeverity::Error);
            return true;
        }
        i = i + 1;
    }
    assert forall|j: int| 0 <= j < issues@.len() implies #[trigger] issue_views(issues@)[j].severity
        != ValidationSeverity::Error by {}
    false
}

} // verus!
