//! How the spectrum curve is shaped across frequency.
//!
//! The shaping itself is floating-point work and stays with the renderer; what the
//! library holds is the choice, and how wide each choice's smoothing kernel is.

use vstd::prelude::*;
use crate::text;

verus! {

/// How the curve is drawn between bins.
#[derive(Clone, Copy, Debug, PartialEq, Eq, Hash, Structural)]
pub enum CurveInterpolation {
    /// Untouched, so peaks keep their true height.
    PeakFlat,
    /// A moving average.
    LinearSmooth,
    /// The moving average plus a Catmull-Rom pass that rounds the shoulders.
    CubicSpline,
}

impl Default for CurveInterpolation {
    fn default() -> (r: CurveInterpolation)
        ensures
            r == CurveInterpolation::LinearSmooth,
    {
        CurveInterpolation::LinearSmooth
    }
}

impl CurveInterpolation {
    /// Every value, in declaration order.
    pub const ALL: [CurveInterpolation; 3] = [
        CurveInterpolation::PeakFlat,
        CurveInterpolation::LinearSmooth,
        CurveInterpolation::CubicSpline,
    ];

    /// The name used in settings files.
    pub open spec fn spec_name(self) -> Seq<char> {
        match self {
            CurveInterpolation::PeakFlat => "PeakFlat"@,
            CurveInterpolation::LinearSmooth => "LinearSmooth"@,
            CurveInterpolation::CubicSpline => "CubicSpline"@,
        }
    }

    /// The value whose name `written` is, ignoring ASCII case.
    pub open spec fn spec_from_name(written: Seq<char>) -> Option<CurveInterpolation> {
        if exists|v: CurveInterpolation| text::eq_ignore_ascii_case(written, #[trigger] v.spec_name()) {
            Some(choose|v: CurveInterpolation| text::eq_ignore_ascii_case(written, #[trigger] v.spec_name()))
        } else {
            None
        }
    }

    /// The name used in settings files.
    pub fn name(self) -> (r: &'static str)
        ensures
            r@ == self.spec_name(),
    {
        match self {
            CurveInterpolation::PeakFlat => "PeakFlat",
            CurveInterpolation::LinearSmooth => "LinearSmooth",
            CurveInterpolation::CubicSpline => "CubicSpline",
        }
    }

    /// Parses a name, ignoring ASCII case.
    pub fn from_name(name: &str) -> (r: Option<CurveInterpolation>)
        ensures
            r == CurveInterpolation::spec_from_name(name@),
    {
        let all = CurveInterpolation::ALL;
        let mut i: usize = 0;
        while i < 3
            invariant
                all@ == seq![CurveInterpolation::PeakFlat, CurveInterpolation::LinearSmooth, CurveInterpolation::CubicSpline],
                i <= 3,
                forall|j: int| 0 <= j < i ==> !text::eq_ignore_ascii_case(name@, #[trigger] all@[j].spec_name()),
            decreases 3 - i,
        {
            let v = all[i];
            if text::same_ignoring_ascii_case(name, v.name()) {
                proof {
                    let c = choose|u: CurveInterpolation| text::eq_ignore_ascii_case(name@, #[trigger] u.spec_name());
                    text::lemma_eq_ignore_ascii_case_shared(name@, v.spec_name(), c.spec_name());
                    CurveInterpolation::lemma_names_distinct();
                }
                return Some(v);
            }
            i = i + 1;
        }
        proof {
            assert forall|v: CurveInterpolation| !text::eq_ignore_ascii_case(name@, #[trigger] v.spec_name()) by {
                match v {
                    CurveInterpolation::PeakFlat => assert(all@[0] == v),
                    CurveInterpolation::LinearSmooth => assert(all@[1] == v),
                    CurveInterpolation::CubicSpline => assert(all@[2] == v),
                }
            }
        }
        None
    }

    /// No two values share a name, even ignoring case.
    pub proof fn lemma_names_distinct()
        ensures
            forall|a: CurveInterpolation, b: CurveInterpolation|
                text::eq_ignore_ascii_case(#[trigger] a.spec_name(), #[trigger] b.spec_name()) ==> a == b,
    {
        reveal_strlit("CubicSpline");
        reveal_strlit("LinearSmooth");
        reveal_strlit("PeakFlat");
        assert forall|a: CurveInterpolation, b: CurveInterpolation|
            text::eq_ignore_ascii_case(#[trigger] a.spec_name(), #[trigger] b.spec_name()) implies a == b by {
            if a != b {
                let (x, y) = (a.spec_name(), b.spec_name());
                if x.len() == y.len() {
                    assert(text::ascii_lower(x[0]) != text::ascii_lower(y[0]));
                }
            }
        }
    }

    /// A value's own name, in any ASCII case, reads back as that value.
    pub proof fn lemma_name_round_trip(v: CurveInterpolation, written: Seq<char>)
        requires
            text::eq_ignore_ascii_case(written, v.spec_name()),
        ensures
            CurveInterpolation::spec_from_name(written) == Some(v),
    {
        let c = choose|u: CurveInterpolation| text::eq_ignore_ascii_case(written, #[trigger] u.spec_name());
        text::lemma_eq_ignore_ascii_case_shared(written, v.spec_name(), c.spec_name());
        CurveInterpolation::lemma_names_distinct();
    }
}

/// How hard the curve is smoothed across frequency.
#[derive(Clone, Copy, Debug, PartialEq, Eq, Hash, Structural)]
pub enum FilteringAmount {
    /// No smoothing. (Named `None` in settings files.)
    Off,
    Light,
    Medium,
    Strong,
}

impl Default for FilteringAmount {
    fn default() -> (r: FilteringAmount)
        ensures
            r == FilteringAmount::Light,
    {
        FilteringAmount::Light
    }
}

impl FilteringAmount {
    /// Every value, in declaration order.
    pub const ALL: [FilteringAmount; 4] = [
        FilteringAmount::Off,
        FilteringAmount::Light,
        FilteringAmount::Medium,
        FilteringAmount::Strong,
    ];

    /// The name used in settings files.
    pub open spec fn spec_name(self) -> Seq<char> {
        match self {
            FilteringAmount::Off => "None"@,
            FilteringAmount::Light => "Light"@,
            FilteringAmount::Medium => "Medium"@,
            FilteringAmount::Strong => "Strong"@,
        }
    }

    /// The value whose name `written` is, ignoring ASCII case.
    pub open spec fn spec_from_name(written: Seq<char>) -> Option<FilteringAmount> {
        if exists|v: FilteringAmount| text::eq_ignore_ascii_case(written, #[trigger] v.spec_name()) {
            Some(choose|v: FilteringAmount| text::eq_ignore_ascii_case(written, #[trigger] v.spec_name()))
        } else {
            None
        }
    }

    /// The name used in settings files.
    pub fn name(self) -> (r: &'static str)
        ensures
            r@ == self.spec_name(),
    {
        match self {
            FilteringAmount::Off => "None",
            FilteringAmount::Light => "Light",
            FilteringAmount::Medium => "Medium",
            FilteringAmount::Strong => "Strong",
        }
    }

    /// Parses a name, ignoring ASCII case.
    pub fn from_name(name: &str) -> (r: Option<FilteringAmount>)
        ensures
            r == FilteringAmount::spec_from_name(name@),
    {
        let all = FilteringAmount::ALL;
        let mut i: usize = 0;
        while i < 4
            invariant
                all@ == seq![FilteringAmount::Off, FilteringAmount::Light, FilteringAmount::Medium, FilteringAmount::Strong],
                i <= 4,
                forall|j: int| 0 <= j < i ==> !text::eq_ignore_ascii_case(name@, #[trigger] all@[j].spec_name()),
            decreases 4 - i,
        {
            let v = all[i];
            if text::same_ignoring_ascii_case(name, v.name()) {
                proof {
                    let c = choose|u: FilteringAmount| text::eq_ignore_ascii_case(name@, #[trigger] u.spec_name());
                    text::lemma_eq_ignore_ascii_case_shared(name@, v.spec_name(), c.spec_name());
                    FilteringAmount::lemma_names_distinct();
                }
                return Some(v);
            }
            i = i + 1;
        }
        proof {
            assert forall|v: FilteringAmount| !text::eq_ignore_ascii_case(name@, #[trigger] v.spec_name()) by {
                match v {
                    FilteringAmount::Off => assert(all@[0] == v),
                    FilteringAmount::Light => assert(all@[1] == v),
                    FilteringAmount::Medium => assert(all@[2] == v),
                    FilteringAmount::Strong => assert(all@[3] == v),
                }
            }
        }
        None
    }

    /// No two values share a name, even ignoring case.
    pub proof fn lemma_names_distinct()
        ensures
            forall|a: FilteringAmount, b: FilteringAmount|
                text::eq_ignore_ascii_case(#[trigger] a.spec_name(), #[trigger] b.spec_name()) ==> a == b,
    {
        reveal_strlit("Light");
        reveal_strlit("Medium");
        reveal_strlit("None");
        reveal_strlit("Strong");
        assert forall|a: FilteringAmount, b: FilteringAmount|
            text::eq_ignore_ascii_case(#[trigger] a.spec_name(), #[trigger] b.spec_name()) implies a == b by {
            if a != b {
                let (x, y) = (a.spec_name(), b.spec_name());
                if x.len() == y.len() {
                    assert(text::ascii_lower(x[0]) != text::ascii_lower(y[0]));
                }
            }
        }
    }

    /// A value's own name, in any ASCII case, reads back as that value.
    pub proof fn lemma_name_round_trip(v: FilteringAmount, written: Seq<char>)
        requires
            text::eq_ignore_ascii_case(written, v.spec_name()),
        ensures
            FilteringAmount::spec_from_name(written) == Some(v),
    {
        let c = choose|u: FilteringAmount| text::eq_ignore_ascii_case(written, #[trigger] u.spec_name());
        text::lemma_eq_ignore_ascii_case_shared(written, v.spec_name(), c.spec_name());
        FilteringAmount::lemma_names_distinct();
    }
}

/// Half-width of each amount's moving-average kernel, in columns.
pub open spec fn spec_kernel_radius(amount: FilteringAmount) -> nat {
    match amount {
        FilteringAmount::Off => 0,
        FilteringAmount::Light => 1,
        FilteringAmount::Medium => 3,
        FilteringAmount::Strong => 6,
    }
}

impl FilteringAmount {
    /// Half-width of the moving-average kernel, in columns.
    pub fn kernel_radius(self) -> (r: usize)
        ensures
            r == spec_kernel_radius(self),
    {
        match self {
            FilteringAmount::Off => 0,
            FilteringAmount::Light => 1,
            FilteringAmount::Medium => 3,
            FilteringAmount::Strong => 6,
        }
    }
}

/// A stronger filter never has a narrower kernel.
pub proof fn lemma_kernel_grows_with_amount()
    ensures
        spec_kernel_radius(FilteringAmount::Off) < spec_kernel_radius(FilteringAmount::Light),
        spec_kernel_radius(FilteringAmount::Light) < spec_kernel_radius(FilteringAmount::Medium),
        spec_kernel_radius(FilteringAmount::Medium) < spec_kernel_radius(FilteringAmount::Strong),
{
}

} // verus!
