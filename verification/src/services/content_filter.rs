//! Content filtering for sensitive material.

use vstd::prelude::*;
use crate::models::SensitiveCategory;
use crate::models::SensitiveContentIssue;
use crate::models::SensitiveContentResult;
use crate::models::SensitiveSeverity;
use crate::strutil::contains_seq;
use crate::strutil::str_contains;

verus! {

/// The view of an issue: its category, description, severity, and
/// suggestion.
pub open spec fn issue_views(issues: Seq<SensitiveContentIssue>) -> Seq<
    (SensitiveCategory, Seq<char>, SensitiveSeverity, Seq<char>),
> {
    issues.map_values(
        |i: SensitiveContentIssue| (i.category, i.description@, i.severity, i.suggestion@),
    )
}

/// One issue per keyword of the list that occurs in the content, in list
/// order, each with the given category, severity, description prefix, and
/// suggestion.
pub open spec fn issues_of(
    kws: Seq<Seq<char>>,
    text: Seq<char>,
    category: SensitiveCategory,
    severity: SensitiveSeverity,
    prefix: Seq<char>,
    suggestion: Seq<char>,
) -> Seq<(SensitiveCategory, Seq<char>, SensitiveSeverity, Seq<char>)>
    decreases kws.len(),
{
    if kws.len() == 0 {
        Seq::empty()
    } else {
        issues_of(kws.drop_last(), text, category, severity, prefix, suggestion) + (
        if contains_seq(text, kws.last()) {
            seq![(category, prefix + kws.last(), severity, suggestion)]
        } else {
            Seq::empty()
        })
    }
}

/// The violence keywords.
pub open spec fn spec_violence_keywords() -> Seq<Seq<char>> {
    seq!["暴力"@, "血腥"@, "杀戮"@, "死亡"@]
}

/// The explicit-content keywords.
pub open spec fn spec_explicit_keywords() -> Seq<Seq<char>> {
    seq!["色情"@, "裸露"@, "性行为"@]
}

/// The political keywords.
pub open spec fn spec_political_keywords() -> Seq<Seq<char>> {
    seq!["政治"@, "政府"@, "领导人"@]
}

/// All issues found in a text, in scan order: violence at medium severity,
/// then explicit and political content at high severity.
pub open spec fn spec_content_issues(text: Seq<char>) -> Seq<
    (SensitiveCategory, Seq<char>, SensitiveSeverity, Seq<char>),
> {
    issues_of(
        spec_violence_keywords(),
        text,
        SensitiveCategory::Violence,
        SensitiveSeverity::Medium,
        "Found potentially violent content: "@,
        "Consider revising to be less graphic"@,
    ) + issues_of(
        spec_explicit_keywords(),
        text,
        SensitiveCategory::Explicit,
        SensitiveSeverity::High,
        "Found potentially explicit content: "@,
        "Remove explicit content for platform compliance"@,
    ) + issues_of(
        spec_political_keywords(),
        text,
        SensitiveCategory::Political,
        SensitiveSeverity::High,
        "Found potentially political content: "@,
        "Avoid political topics for broader audience"@,
    )
}

proof fn lemma_issue_views_push(s: Seq<SensitiveContentIssue>, x: SensitiveContentIssue)
    ensures
        issue_views(s.push(x)) == issue_views(s).push(
            (x.category, x.description@, x.severity, x.suggestion@),
        ),
{
    assert(issue_views(s.push(x)) =~= issue_views(s).push(
        (x.category, x.description@, x.severity, x.suggestion@),
    ));
}

fn scan_group(
    content: &str,
    kws: &Vec<&str>,
    Ghost(kw_views): Ghost<Seq<Seq<char>>>,
    category: SensitiveCategory,
    severity: SensitiveSeverity,
    prefix: &str,
    suggestion: &str,
    out: &mut Vec<SensitiveContentIssue>,
)
    requires
        kw_views.len() == kws@.len(),
        forall|j: int| 0 <= j < kws@.len() ==> (#[trigger] kws@[j])@ == kw_views[j],
    ensures
        issue_views(final(out)@) == issue_views(old(out)@) + issues_of(
            kw_views,
            content@,
            category,
            severity,
            prefix@,
            suggestion@,
        ),
{
    let n = kws.len();
    let mut i: usize = 0;
    while i < n
        invariant
            n == kws@.len(),
            kw_views.len() == kws@.len(),
            forall|j: int| 0 <= j < kws@.len() ==> (#[trigger] kws@[j])@ == kw_views[j],
            0 <= i <= n,
            issue_views(out@) =~= issue_views(old(out)@) + issues_of(
                kw_views.take(i as int),
                content@,
                category,
                severity,
                prefix@,
                suggestion@,
            ),
        decreases n - i,
    {
        if str_contains(content, kws[i]) {
            let mut description = prefix.to_owned();
            description.append(kws[i]);
            assert(description@ == prefix@ + kw_views[i as int]);
            let issue = SensitiveContentIssue {
                category,
                description,
                severity,
                suggestion: suggestion.to_owned(),
            };
            proof {
                lemma_issue_views_push(out@, issue);
            }
            out.push(issue);
        }
        proof {
            assert(kw_views.take(i + 1).drop_last() =~= kw_views.take(i as int));
            assert(kw_views.take(i + 1).last() == kw_views[i as int]);
            assert(issue_views(out@) =~= issue_views(old(out)@) + issues_of(
                kw_views.take(i + 1),
                content@,
                category,
                severity,
                prefix@,
                suggestion@,
            ));
        }
        i += 1;
    }
    proof {
        assert(kw_views.take(n as int) =~= kw_views);
    }
}

/// Content filter for sensitive material.
pub struct ContentFilter;

impl ContentFilter {
    /// Creates a content filter.
    pub fn new() -> ContentFilter {
        ContentFilter
    }

    /// Checks content for sensitive material: the issues are the keyword
    /// hits in scan order, and the check passes exactly when every issue
    /// is of low severity.
    pub fn check(&self, content: &str) -> (r: SensitiveContentResult)
        ensures
            issue_views(r.issues@) == spec_content_issues(content@),
            r.passed == (forall|i: int|
                0 <= i < r.issues@.len() ==> (#[trigger] r.issues@[i]).severity
                    == SensitiveSeverity::Low),
    {
        let mut issues: Vec<SensitiveContentIssue> = Vec::new();

        let mut violence: Vec<&str> = Vec::new();
        violence.push("暴力");
        violence.push("血腥");
        violence.push("杀戮");
        violence.push("死亡");
        scan_group(
            content,
            &violence,
            Ghost(spec_violence_keywords()),
            SensitiveCategory::Violence,
            SensitiveSeverity::Medium,
            "Found potentially violent content: ",
            "Consider revising to be less graphic",
            &mut issues,
        );

        let mut explicit: Vec<&str> = Vec::new();
        explicit.push("色情");
        explicit.push("裸露");
        explicit.push("性行为");
        scan_group(
            content,
            &explicit,
            Ghost(spec_explicit_keywords()),
            SensitiveCategory::Explicit,
            SensitiveSeverity::High,
            "Found potentially explicit content: ",
            "Remove explicit content for platform compliance",
            &mut issues,
        );

        let mut political: Vec<&str> = Vec::new();
        political.push("政治");
        political.push("政府");
        political.push("领导人");
        scan_group(
            content,
            &political,
            Ghost(spec_political_keywords()),
            SensitiveCategory::Political,
            SensitiveSeverity::High,
            "Found potentially political content: ",
            "Avoid political topics for broader audience",
            &mut issues,
        );
        assert(issue_views(issues@) =~= spec_content_issues(content@));

        let n = issues.len();
        let mut all_low = true;
        let mut i: usize = 0;
        while i < n
            invariant
                n == issues@.len(),
                0 <= i <= n,
                all_low == (forall|j: int|
                    0 <= j < i ==> (#[trigger] issues@[j]).severity == SensitiveSeverity::Low),
            decreases n - i,
        {
            if !matches!(issues[i].severity, SensitiveSeverity::Low) {
                all_low = false;
            }
            i += 1;
        }

        SensitiveContentResult { passed: all_low, issues }
    }

    /// Filters content; the text is returned unchanged.
    pub fn filter(&self, content: &str) -> (r: String)
        ensures
            r@ == content@,
    {
        content.to_owned()
    }
}

impl Default for ContentFilter {
    /// The default content filter.
    fn default() -> ContentFilter {
        ContentFilter
    }
}

} // verus!
