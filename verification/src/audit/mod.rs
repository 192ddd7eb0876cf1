//! Audit findings and scoring.

pub mod audio;
pub mod cpu_power;
pub mod display;
pub mod gpu_power;
pub mod kernel_params;
pub mod network_power;
pub mod pci_power;
pub mod services;
pub mod sleep;
pub mod sysctl;
pub mod usb_power;

use vstd::prelude::*;
use crate::detect::dmi::opt_view;

verus! {

/// Severity of an audit finding.
#[derive(Debug, Clone, Copy, PartialEq, Eq, Structural, PartialOrd, Ord, Hash)]
pub enum Severity {
    Info,
    Low,
    Medium,
    High,
}

/// A single audit finding: what is wrong, what it costs, and what to set.
#[derive(Debug, Clone)]
pub struct Finding {
    pub severity: Severity,
    pub category: String,
    pub description: String,
    pub current_value: String,
    pub recommended_value: String,
    pub impact: String,
    pub path: Option<String>,
    pub weight: u32,
}

/// View of a [`Finding`].
pub struct FindingView {
    pub severity: Severity,
    pub category: Seq<char>,
    pub description: Seq<char>,
    pub current_value: Seq<char>,
    pub recommended_value: Seq<char>,
    pub impact: Seq<char>,
    pub path: Option<Seq<char>>,
    pub weight: u32,
}

impl View for Finding {
    type V = FindingView;

    open spec fn view(&self) -> FindingView {
        FindingView {
            severity: self.severity,
            category: self.category@,
            description: self.description@,
            current_value: self.current_value@,
            recommended_value: self.recommended_value@,
            impact: self.impact@,
            path: opt_view(self.path),
            weight: self.weight,
        }
    }
}

/// Views of a vector of findings.
pub open spec fn findings_view(v: Seq<Finding>) -> Seq<FindingView> {
    v.map_values(|f: Finding| f@)
}

/// A fresh finding view with empty detail fields.
pub open spec fn new_finding(
    severity: Severity,
    category: Seq<char>,
    description: Seq<char>,
) -> FindingView {
    FindingView {
        severity: severity,
        category: category,
        description: description,
        current_value: Seq::empty(),
        recommended_value: Seq::empty(),
        impact: Seq::empty(),
        path: None,
        weight: 0,
    }
}

impl Finding {
    /// A fresh finding with empty detail fields.
    pub fn new(severity: Severity, category: &str, description: String) -> (r: Self)
        ensures
            r@ == new_finding(severity, category@, description@),
    {
        Finding {
            severity,
            category: category.to_owned(),
            description,
            current_value: String::new(),
            recommended_value: String::new(),
            impact: String::new(),
            path: None,
            weight: 0,
        }
    }

    /// The finding with its current value set.
    pub fn current(self, value: String) -> (r: Self)
        ensures
            r@ == (FindingView { current_value: value@, ..self@ }),
    {
        Finding { current_value: value, ..self }
    }

    /// The finding with its recommended value set.
    pub fn recommended(self, value: String) -> (r: Self)
        ensures
            r@ == (FindingView { recommended_value: value@, ..self@ }),
    {
        Finding { recommended_value: value, ..self }
    }

    /// The finding with its impact estimate set.
    pub fn impact(self, value: String) -> (r: Self)
        ensures
            r@ == (FindingView { impact: value@, ..self@ }),
    {
        Finding { impact: value, ..self }
    }

    /// The finding with its subject path set.
    pub fn path(self, value: String) -> (r: Self)
        ensures
            r@ == (FindingView { path: Some(value@), ..self@ }),
    {
        Finding { path: Some(value), ..self }
    }

    /// The finding with its scoring weight set.
    pub fn weight(self, value: u32) -> (r: Self)
        ensures
            r@ == (FindingView { weight: value, ..self@ }),
    {
        Finding { weight: value, ..self }
    }
}

/// Sum of the findings' weights.
pub open spec fn sum_weights_from(fs: Seq<FindingView>, i: int, acc: int) -> int
    decreases fs.len() - i,
{
    if i < 0 || i >= fs.len() {
        acc
    } else {
        sum_weights_from(fs, i + 1, acc + fs[i].weight)
    }
}

/// The audit score: `100` with no findings; else `100` scaled down by the
/// weight the findings carry out of `10` per finding, rounded to the
/// nearest point and floored at `0`.
pub open spec fn spec_score(fs: Seq<FindingView>) -> int {
    if fs.len() == 0 {
        100
    } else {
        let total = sum_weights_from(fs, 0, 0);
        let max = fs.len() * 10;
        if total >= max {
            0
        } else {
            (100 * (max - total) + max / 2) / max as int
        }
    }
}

/// The score always lands between `0` and `100`.
pub proof fn lemma_score_bounds(fs: Seq<FindingView>)
    ensures
        0 <= spec_score(fs) <= 100,
{
    if fs.len() > 0 {
        let total = sum_weights_from(fs, 0, 0);
        let max = fs.len() * 10;
        lemma_sum_nonneg(fs, 0, 0);
        if total < max {
            assert((100 * (max - total) + max / 2) / max as int <= 100) by (nonlinear_arith)
                requires
                    0 <= total < max,
                    max >= 10,
            ;
            assert((100 * (max - total) + max / 2) / max as int >= 0) by (nonlinear_arith)
                requires
                    0 <= total < max,
                    max >= 10,
            ;
        }
    }
}

/// The weight sum never drops below its accumulator.
proof fn lemma_sum_nonneg(fs: Seq<FindingView>, i: int, acc: int)
    requires
        0 <= i <= fs.len(),
    ensures
        sum_weights_from(fs, i, acc) >= acc,
    decreases fs.len() - i,
{
    if i < fs.len() {
        lemma_sum_nonneg(fs, i + 1, acc + fs[i].weight);
    }
}

/// Calculates the audit score from the findings: `100` is a clean bill,
/// `0` the worst possible.
pub fn calculate_score(findings: &Vec<Finding>) -> (r: u32)
    ensures
        r == spec_score(findings_view(findings@)),
        r <= 100,
        findings@.len() == 0 ==> r == 100,
{
    let ghost fv = findings_view(findings@);
    proof {
        lemma_score_bounds(fv);
    }
    if findings.len() == 0 {
        return 100;
    }
    let mut total: u128 = 0;
    let mut i: usize = 0;
    while i < findings.len()
        invariant
            i <= findings@.len(),
            fv == findings_view(findings@),
            total <= i * 0x1_0000_0000,
            sum_weights_from(fv, 0, 0) == sum_weights_from(fv, i as int, total as int),
        decreases findings@.len() - i,
    {
        proof {
            assert(total + fv[i as int].weight <= (i + 1) * 0x1_0000_0000) by (nonlinear_arith)
                requires
                    total <= i * 0x1_0000_0000,
                    fv[i as int].weight < 0x1_0000_0000,
            ;
        }
        total = total + findings[i].weight as u128;
        i = i + 1;
    }
    let max: u128 = (findings.len() as u128) * 10;
    proof {
        lemma_sum_nonneg(fv, 0, 0);
    }
    if total >= max {
        return 0;
    }
    let score: u128 = (100 * (max - total) + max / 2) / max;
    proof {
        assert(score <= 100) by (nonlinear_arith)
            requires
                score == (100 * (max - total) + max / 2) / (max as int),
                0 <= total < max,
                max >= 10,
        ;
    }
    score as u32
}

} // verus!
