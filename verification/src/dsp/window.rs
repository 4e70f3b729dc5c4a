//! Analysis windows: which taper goes on each frame before the transform.
//!
//! Building a window is floating-point work and stays with the renderer; what the
//! library holds is the choice, and the name settings files give it.

use vstd::prelude::*;
use crate::text;

verus! {

/// The taper applied to each FFT frame before the transform.
#[derive(Clone, Copy, Debug, PartialEq, Eq, Hash, Structural)]
pub enum WindowType {
    Hann,
    Hamming,
    BlackmanHarris,
    Nuttall,
    Gaussian,
    Rectangular,
}

impl Default for WindowType {
    fn default() -> (r: WindowType)
        ensures
            r == WindowType::Hann,
    {
        WindowType::Hann
    }
}

impl WindowType {
    /// Every window, in the order Nostalgia+ declared them.
    pub const ALL: [WindowType; 6] = [
        WindowType::Hann,
        WindowType::Hamming,
        WindowType::BlackmanHarris,
        WindowType::Nuttall,
        WindowType::Gaussian,
        WindowType::Rectangular,
    ];

    /// The name used in settings files and reference vectors.
    pub open spec fn spec_name(self) -> Seq<char> {
        match self {
            WindowType::Hann => "Hann"@,
            WindowType::Hamming => "Hamming"@,
            WindowType::BlackmanHarris => "BlackmanHarris"@,
            WindowType::Nuttall => "Nuttall"@,
            WindowType::Gaussian => "Gaussian"@,
            WindowType::Rectangular => "Rectangular"@,
        }
    }

    /// The value whose name `written` is, ignoring ASCII case.
    pub open spec fn spec_from_name(written: Seq<char>) -> Option<WindowType> {
        if exists|v: WindowType| text::eq_ignore_ascii_case(written, #[trigger] v.spec_name()) {
            Some(choose|v: WindowType| text::eq_ignore_ascii_case(written, #[trigger] v.spec_name()))
        } else {
            None
        }
    }

    /// The name used in settings files and reference vectors.
    pub fn name(self) -> (r: &'static str)
        ensures
            r@ == self.spec_name(),
    {
        match self {
            WindowType::Hann => "Hann",
            WindowType::Hamming => "Hamming",
            WindowType::BlackmanHarris => "BlackmanHarris",
            WindowType::Nuttall => "Nuttall",
            WindowType::Gaussian => "Gaussian",
            WindowType::Rectangular => "Rectangular",
        }
    }

    /// Parses [`WindowType::name`], ignoring case.
    pub fn from_name(name: &str) -> (r: Option<WindowType>)
        ensures
            r == WindowType::spec_from_name(name@),
    {
        let all = WindowType::ALL;
        let mut i: usize = 0;
        while i < 6
            invariant
                all@ == seq![WindowType::Hann, WindowType::Hamming, WindowType::BlackmanHarris, WindowType::Nuttall, WindowType::Gaussian, WindowType::Rectangular],
                i <= 6,
                forall|j: int| 0 <= j < i ==> !text::eq_ignore_ascii_case(name@, #[trigger] all@[j].spec_name()),
            decreases 6 - i,
        {
            let v = all[i];
            if text::same_ignoring_ascii_case(name, v.name()) {
                proof {
                    let c = choose|u: WindowType| text::eq_ignore_ascii_case(name@, #[trigger] u.spec_name());
                    text::lemma_eq_ignore_ascii_case_shared(name@, v.spec_name(), c.spec_name());
                    WindowType::lemma_names_distinct();
                }
                return Some(v);
            }
            i = i + 1;
        }
        proof {
            assert forall|v: WindowType| !text::eq_ignore_ascii_case(name@, #[trigger] v.spec_name()) by {
                match v {
                    WindowType::Hann => assert(all@[0] == v),
                    WindowType::Hamming => assert(all@[1] == v),
                    WindowType::BlackmanHarris => assert(all@[2] == v),
                    WindowType::Nuttall => assert(all@[3] == v),
                    WindowType::Gaussian => assert(all@[4] == v),
                    WindowType::Rectangular => assert(all@[5] == v),
                }
            }
        }
        None
    }

    /// No two values share a name, even ignoring case.
    pub proof fn lemma_names_distinct()
        ensures
            forall|a: WindowType, b: WindowType|
                text::eq_ignore_ascii_case(#[trigger] a.spec_name(), #[trigger] b.spec_name()) ==> a == b,
    {
        reveal_strlit("BlackmanHarris");
        reveal_strlit("Gaussian");
        reveal_strlit("Hamming");
        reveal_strlit("Hann");
        reveal_strlit("Nuttall");
        reveal_strlit("Rectangular");
        assert forall|a: WindowType, b: WindowType|
            text::eq_ignore_ascii_case(#[trigger] a.spec_name(), #[trigger] b.spec_name()) implies a == b by {
            if a != b {
                let (x, y) = (a.spec_name(), b.spec_name());
                if x.len() == y.len() {
                    assert(text::ascii_lower(x[0]) != text::ascii_lower(y[0]));
                }
            }
        }
    }

    /// A value's own name, in any ASCII case, reads back as that value.
    pub proof fn lemma_name_round_trip(v: WindowType, written: Seq<char>)
        requires
            text::eq_ignore_ascii_case(written, v.spec_name()),
        ensures
            WindowType::spec_from_name(written) == Some(v),
    {
        let c = choose|u: WindowType| text::eq_ignore_ascii_case(written, #[trigger] u.spec_name());
        text::lemma_eq_ignore_ascii_case_shared(written, v.spec_name(), c.spec_name());
        WindowType::lemma_names_distinct();
    }
}

} // verus!
