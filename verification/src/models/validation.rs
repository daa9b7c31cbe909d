//! Validation models: field validation, copyright checks, and genre
//! consistency outcomes.

use vstd::prelude::*;

verus! {

/// Validation result containing errors and warnings.
#[derive(Debug, Clone, PartialEq)]
pub struct ValidationResult {
    pub valid: bool,
    pub errors: Vec<ValidationError>,
    pub warnings: Vec<ValidationWarning>,
}

impl ValidationResult {
    /// A result with no errors and no warnings.
    pub fn valid() -> (r: ValidationResult)
        ensures
            r.valid,
            r.errors@ =~= Seq::<ValidationError>::empty(),
            r.warnings@ =~= Seq::<ValidationWarning>::empty(),
    {
        ValidationResult { valid: true, errors: Vec::new(), warnings: Vec::new() }
    }

    /// A failed result carrying the given errors.
    pub fn invalid(errors: Vec<ValidationError>) -> (r: ValidationResult)
        ensures
            !r.valid,
            r.errors == errors,
            r.warnings@ =~= Seq::<ValidationWarning>::empty(),
    {
        ValidationResult { valid: false, errors, warnings: Vec::new() }
    }

    /// The same result with one more warning appended.
    pub fn with_warning(self, warning: ValidationWarning) -> (r: ValidationResult)
        ensures
            r.valid == self.valid,
            r.errors == self.errors,
            r.warnings@ == self.warnings@.push(warning),
    {
        let mut s = self;
        s.warnings.push(warning);
        s
    }
}

/// Validation error with field and message.
#[derive(Debug, Clone, PartialEq)]
pub struct ValidationError {
    pub field: String,
    pub message: String,
    pub code: ErrorCode,
}

/// Error codes for validation.
#[derive(Debug, Clone, Copy, PartialEq, Eq, Structural)]
pub enum ErrorCode {
    MissingField,
    InvalidFormat,
    OutOfRange,
    Duplicate,
    TooShort,
    TooLong,
}

/// Validation warning.
#[derive(Debug, Clone, PartialEq)]
pub struct ValidationWarning {
    pub field: String,
    pub message: String,
}

/// Risk level for copyright checks.
#[derive(Debug, Clone, Copy, PartialEq, Eq, Structural)]
pub enum RiskLevel {
    Low,
    Medium,
    High,
}

impl RiskLevel {
    /// Whether this is the highest risk level.
    pub fn is_high(&self) -> (r: bool)
        ensures
            r == (*self == RiskLevel::High),
    {
        matches!(self, RiskLevel::High)
    }
}

/// Copyright check result for a character name.
#[derive(Debug, Clone, PartialEq)]
pub struct CopyrightCheckResult {
    pub character_name: String,
    pub is_potential_duplicate: bool,
    pub risk_level: RiskLevel,
    pub suggested_alternatives: Vec<String>,
    pub source_work: Option<String>,
}

impl CopyrightCheckResult {
    /// A clean outcome: not a duplicate, low risk, no suggestions.
    pub fn safe(name: &str) -> (r: CopyrightCheckResult)
        ensures
            r.character_name@ == name@,
            !r.is_potential_duplicate,
            r.risk_level == RiskLevel::Low,
            r.suggested_alternatives@ =~= Seq::<String>::empty(),
            r.source_work is None,
    {
        CopyrightCheckResult {
            character_name: name.to_owned(),
            is_potential_duplicate: false,
            risk_level: RiskLevel::Low,
            suggested_alternatives: Vec::new(),
            source_work: None,
        }
    }

    /// An outcome that flags the name as a potential duplicate.
    pub fn risky(
        name: &str,
        risk_level: RiskLevel,
        source: Option<String>,
        alternatives: Vec<String>,
    ) -> (r: CopyrightCheckResult)
        ensures
            r.character_name@ == name@,
            r.is_potential_duplicate,
            r.risk_level == risk_level,
            r.suggested_alternatives == alternatives,
            r.source_work == source,
    {
        CopyrightCheckResult {
            character_name: name.to_owned(),
            is_potential_duplicate: true,
            risk_level,
            suggested_alternatives: alternatives,
            source_work: source,
        }
    }
}

/// Consistency check result for outline validation.  The score is kept in
/// thousandths, so `1000` stands for a full score of one.
#[derive(Debug, Clone, PartialEq)]
pub struct ConsistencyCheckResult {
    pub is_consistent: bool,
    /// Score in thousandths, between 0 and 1000.
    pub score: u32,
    pub matched_keywords: Vec<String>,
    pub mismatched_elements: Vec<String>,
    pub warnings: Vec<String>,
}

impl ConsistencyCheckResult {
    /// An outcome built from a score and the matched keywords alone.
    pub fn consistent(score: u32, matched: Vec<String>) -> (r: ConsistencyCheckResult)
        ensures
            r.is_consistent == (score >= 700),
            r.score == score,
            r.matched_keywords == matched,
            r.mismatched_elements@ =~= Seq::<String>::empty(),
            r.warnings@ =~= Seq::<String>::empty(),
    {
        ConsistencyCheckResult {
            is_consistent: score >= 700,
            score,
            matched_keywords: matched,
            mismatched_elements: Vec::new(),
            warnings: Vec::new(),
        }
    }

    /// An outcome built from a score, the mismatched elements and warnings.
    pub fn inconsistent(score: u32, mismatched: Vec<String>, warnings: Vec<String>) -> (r:
        ConsistencyCheckResult)
        ensures
            r.is_consistent == (score >= 700),
            r.score == score,
            r.matched_keywords@ =~= Seq::<String>::empty(),
            r.mismatched_elements == mismatched,
            r.warnings == warnings,
    {
        ConsistencyCheckResult {
            is_consistent: score >= 700,
            score,
            matched_keywords: Vec::new(),
            mismatched_elements: mismatched,
            warnings,
        }
    }
}

/// The views of the given strings, in order.
pub open spec fn seq_views(ss: Seq<String>) -> Seq<Seq<char>> {
    ss.map_values(|s: String| s@)
}

/// Taking a prefix commutes with taking views.
pub proof fn lemma_seq_views_take(ss: Seq<String>, i: int)
    requires
        0 <= i <= ss.len(),
    ensures
        seq_views(ss).take(i) == seq_views(ss.take(i)),
{
    assert(seq_views(ss).take(i) =~= seq_views(ss.take(i)));
}

/// Appending one string appends its view.
pub proof fn lemma_seq_views_push(ss: Seq<String>, x: String)
    ensures
        seq_views(ss.push(x)) == seq_views(ss).push(x@),
{
    assert(seq_views(ss.push(x)) =~= seq_views(ss).push(x@));
}

/// The message naming a protagonist whose name may collide with a known
/// character.
pub open spec fn protagonist_dup_msg(name: Seq<char>, source: Seq<char>) -> Seq<char> {
    "主角名字 '"@ + name + "' 可能与 '"@ + source + "' 重复"@
}

/// The message naming a supporting character whose name may collide.
pub open spec fn character_dup_msg(name: Seq<char>, source: Seq<char>) -> Seq<char> {
    "角色 '"@ + name + "' 可能与 '"@ + source + "' 重复"@
}

/// The given strings joined with a comma and a space.
pub open spec fn join_comma(xs: Seq<Seq<char>>) -> Seq<char>
    decreases xs.len(),
{
    if xs.len() == 0 {
        Seq::empty()
    } else if xs.len() == 1 {
        xs[0]
    } else {
        xs[0] + ", "@ + join_comma(xs.drop_first())
    }
}

/// The message listing suggested replacement names.
pub open spec fn alternatives_msg(alts: Seq<Seq<char>>) -> Seq<char> {
    "建议替换名字: "@ + join_comma(alts)
}

/// The warning messages contributed by the supporting-character checks of
/// the given prefix: one message per flagged check with a known source work.
pub open spec fn character_check_msgs(checks: Seq<CopyrightCheckResult>) -> Seq<Seq<char>>
    decreases checks.len(),
{
    if checks.len() == 0 {
        Seq::empty()
    } else {
        let last = checks.last();
        character_check_msgs(checks.drop_last()) + (if last.is_potential_duplicate
            && last.source_work is Some {
            seq![character_dup_msg(last.character_name@, last.source_work->0@)]
        } else {
            Seq::empty()
        })
    }
}

/// Combined validation result for an outline.
#[derive(Debug, Clone, PartialEq)]
pub struct OutlineValidation {
    pub consistency: ConsistencyCheckResult,
    pub protagonist_check: CopyrightCheckResult,
    pub character_checks: Vec<CopyrightCheckResult>,
}

impl OutlineValidation {
    /// The condition for approving an outline: the checks all pass.
    pub open spec fn spec_is_valid(self) -> bool {
        self.consistency.is_consistent && self.protagonist_check.risk_level != RiskLevel::High
            && (forall|i: int|
            0 <= i < self.character_checks@.len()
                ==> (#[trigger] self.character_checks@[i]).risk_level != RiskLevel::High)
    }

    /// Whether the outline passes all validations: consistency holds and no
    /// character name carries high copyright risk.
    pub fn is_valid(&self) -> (r: bool)
        ensures
            r == self.spec_is_valid(),
    {
        if !self.consistency.is_consistent {
            return false;
        }
        if matches!(self.protagonist_check.risk_level, RiskLevel::High) {
            return false;
        }
        let n = self.character_checks.len();
        let mut i: usize = 0;
        while i < n
            invariant
                n == self.character_checks@.len(),
                0 <= i <= n,
                forall|j: int|
                    0 <= j < i ==> (#[trigger] self.character_checks@[j]).risk_level
                        != RiskLevel::High,
            decreases n - i,
        {
            if matches!(self.character_checks[i].risk_level, RiskLevel::High) {
                return false;
            }
            i += 1;
        }
        true
    }

    /// All warnings of this validation, in order: the consistency warnings,
    /// the mismatched elements, the protagonist collision and suggestion
    /// messages, then one message per flagged supporting character.
    pub open spec fn spec_warnings(self) -> Seq<Seq<char>> {
        seq_views(self.consistency.warnings@) + seq_views(self.consistency.mismatched_elements@) + (
        if self.protagonist_check.is_potential_duplicate && self.protagonist_check.source_work
            is Some {
            seq![
                protagonist_dup_msg(
                    self.protagonist_check.character_name@,
                    self.protagonist_check.source_work->0@,
                ),
            ]
        } else {
            Seq::empty()
        }) + (if self.protagonist_check.is_potential_duplicate
            && self.protagonist_check.suggested_alternatives@.len() > 0 {
            seq![alternatives_msg(seq_views(self.protagonist_check.suggested_alternatives@))]
        } else {
            Seq::empty()
        }) + character_check_msgs(self.character_checks@)
    }

    /// Collects every warning of this validation.
    pub fn warnings(&self) -> (r: Vec<String>)
        ensures
            seq_views(r@) == self.spec_warnings(),
    {
        let mut out: Vec<String> = Vec::new();

        let mut i: usize = 0;
        let cw = self.consistency.warnings.len();
        while i < cw
            invariant
                cw == self.consistency.warnings@.len(),
                0 <= i <= cw,
                seq_views(out@) == seq_views(self.consistency.warnings@).take(i as int),
            decreases cw - i,
        {
            let w = self.consistency.warnings[i].clone();
            proof {
                lemma_seq_views_push(out@, w);
            }
            out.push(w);
            assert(seq_views(out@) =~= seq_views(self.consistency.warnings@).take(i + 1));
            i += 1;
        }
        let ghost part1 = seq_views(self.consistency.warnings@);
        assert(seq_views(out@) =~= part1);

        let mut i: usize = 0;
        let cm = self.consistency.mismatched_elements.len();
        while i < cm
            invariant
                cm == self.consistency.mismatched_elements@.len(),
                0 <= i <= cm,
                seq_views(out@) == part1 + seq_views(
                    self.consistency.mismatched_elements@,
                ).take(i as int),
            decreases cm - i,
        {
            let w = self.consistency.mismatched_elements[i].clone();
            proof {
                lemma_seq_views_push(out@, w);
            }
            out.push(w);
            assert(seq_views(out@) =~= part1 + seq_views(
                self.consistency.mismatched_elements@,
            ).take(i + 1));
            i += 1;
        }
        let ghost base1 = seq_views(out@);
        assert(base1 =~= part1 + seq_views(self.consistency.mismatched_elements@));

        if self.protagonist_check.is_potential_duplicate {
            if let Some(source) = &self.protagonist_check.source_work {
                let mut msg = String::new();
                msg.append("主角名字 '");
                msg.append(self.protagonist_check.character_name.as_str());
                msg.append("' 可能与 '");
                msg.append(source.as_str());
                msg.append("' 重复");
                assert(msg@ =~= protagonist_dup_msg(
                    self.protagonist_check.character_name@,
                    self.protagonist_check.source_work->0@,
                ));
                proof {
                    lemma_seq_views_push(out@, msg);
                }
                out.push(msg);
            }
            if self.protagonist_check.suggested_alternatives.len() > 0 {
                let mut msg = String::new();
                msg.append("建议替换名字: ");
                let joined = join_strings(&self.protagonist_check.suggested_alternatives);
                msg.append(joined.as_str());
                assert(msg@ =~= alternatives_msg(
                    seq_views(self.protagonist_check.suggested_alternatives@),
                ));
                proof {
                    lemma_seq_views_push(out@, msg);
                }
                out.push(msg);
            }
        }
        let ghost base2 = seq_views(out@);

        let n = self.character_checks.len();
        let mut i: usize = 0;
        while i < n
            invariant
                n == self.character_checks@.len(),
                0 <= i <= n,
                seq_views(out@) == base2 + character_check_msgs(
                    self.character_checks@.take(i as int),
                ),
            decreases n - i,
        {
            let check = &self.character_checks[i];
            if check.is_potential_duplicate {
                if let Some(source) = &check.source_work {
                    let mut msg = String::new();
                    msg.append("角色 '");
                    msg.append(check.character_name.as_str());
                    msg.append("' 可能与 '");
                    msg.append(source.as_str());
                    msg.append("' 重复");
                    assert(msg@ =~= character_dup_msg(
                        check.character_name@,
                        check.source_work->0@,
                    ));
                    proof {
                        lemma_seq_views_push(out@, msg);
                    }
                    out.push(msg);
                }
            }
            proof {
                assert(self.character_checks@.take(i + 1).drop_last() =~= self.character_checks@
                    .take(i as int));
                assert(self.character_checks@.take(i + 1).last() == self.character_checks@[
                    i as int]);
                assert(seq_views(out@) =~= base2 + character_check_msgs(
                    self.character_checks@.take(i + 1),
                ));
            }
            i += 1;
        }
        proof {
            assert(self.character_checks@.take(n as int) =~= self.character_checks@);
            assert(seq_views(out@) =~= self.spec_warnings());
        }
        out
    }
}

/// Joins the given strings with a comma and a space.
pub fn join_strings(xs: &Vec<String>) -> (r: String)
    ensures
        r@ == join_comma(seq_views(xs@)),
{
    let mut out = String::new();
    let n = xs.len();
    let mut i: usize = 0;
    while i < n
        invariant
            n == xs@.len(),
            0 <= i <= n,
            out@ == join_comma(seq_views(xs@).take(i as int)),
        decreases n - i,
    {
        if i > 0 {
            out.append(", ");
        }
        out.append(xs[i].as_str());
        proof {
            lemma_join_comma_push(seq_views(xs@).take(i as int), xs@[i as int]@);
            assert(seq_views(xs@).take(i + 1) =~= seq_views(xs@).take(i as int).push(
                xs@[i as int]@,
            ));
            if i > 0 {
                assert(out@ =~= join_comma(seq_views(xs@).take(i + 1)));
            } else {
                assert(out@ =~= join_comma(seq_views(xs@).take(i + 1)));
            }
        }
        i += 1;
    }
    proof {
        assert(seq_views(xs@).take(n as int) =~= seq_views(xs@));
    }
    out
}

proof fn lemma_join_comma_push(xs: Seq<Seq<char>>, y: Seq<char>)
    ensures
        join_comma(xs.push(y)) == if xs.len() == 0 {
            y
        } else {
            join_comma(xs) + ", "@ + y
        },
    decreases xs.len(),
{
    if xs.len() == 0 {
        assert(xs.push(y).len() == 1);
        assert(join_comma(xs.push(y)) == xs.push(y)[0]);
    } else if xs.len() == 1 {
        assert(xs.push(y).drop_first() =~= seq![y]);
        assert(join_comma(seq![y]) == y);
    } else {
        assert(xs.push(y).drop_first() =~= xs.drop_first().push(y));
        lemma_join_comma_push(xs.drop_first(), y);
        assert(join_comma(xs.push(y)) == xs[0] + ", "@ + join_comma(xs.drop_first().push(y)));
        assert(join_comma(xs) + ", "@ + y == xs[0] + ", "@ + (join_comma(xs.drop_first()) + ", "@
            + y)) by {
            assert((xs[0] + ", "@ + join_comma(xs.drop_first())) + ", "@ + y =~= xs[0] + ", "@ + (
            join_comma(xs.drop_first()) + ", "@ + y));
        }
    }
}

} // verus!
