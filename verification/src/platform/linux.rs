//! Linux: PipeWire capture targets, and the desktop's appearance as the XDG settings
//! portal reports it.

use vstd::prelude::*;
use crate::settings::Argb;
use crate::source::SourceStatus;
use crate::text;

verus! {

/// The desktop's accent colour and whether its windows are dark.
#[derive(Clone, Copy, Debug, PartialEq, Eq, Structural)]
pub struct Appearance {
    pub accent: Option<Argb>,
    pub dark: bool,
}

impl Default for Appearance {
    /// Dark is the assumption: an analyser is looked at in the dark, and a wrong guess
    /// towards dark costs less than a white window in a dim room.
    fn default() -> (a: Appearance)
        ensures
            a.accent is None,
            a.dark,
    {
        Appearance { accent: None, dark: true }
    }
}

/// `0xFFRRGGBB`: an opaque colour from its three channels.
pub open spec fn opaque(r: u8, g: u8, b: u8) -> u32 {
    (0xFF00_0000 + r as int * 0x1_0000 + g as int * 0x100 + b as int) as u32
}

/// The appearance the portal's answers make: `scheme` is `color-scheme` where the
/// portal gave one (1 "prefer dark", 2 "prefer light", 0 "no preference"), and
/// `accent` the `accent-color` already brought to whole bytes, where it gave one. Only a
/// preference for light makes the window light.
pub fn appearance_from(scheme: Option<u32>, accent: Option<(u8, u8, u8)>) -> (a: Appearance)
    ensures
        a.dark == match scheme {
            Some(s) => s != 2,
            None => true,
        },
        a.accent == match accent {
            Some((r, g, b)) => Some(Argb(opaque(r, g, b))),
            None => None,
        },
{
    let dark = match scheme {
        Some(s) => s != 2,
        None => true,
    };
    let accent = match accent {
        Some((r, g, b)) => Some(Argb(0xFF00_0000u32 + (r as u32) * 0x1_0000 + (g as u32) * 0x100 + b as u32)),
        None => None,
    };
    Appearance { accent, dark }
}

/// What to capture.
#[derive(Clone, Debug, PartialEq, Eq)]
pub enum Target {
    /// Everything the default sink plays.
    WholeSystem,
    /// One app's output stream node, by its `object.serial`.
    Node { serial: u64, name: String },
}

/// One app with an output stream, for the "Capture from" menu.
#[derive(Clone, Debug, PartialEq, Eq)]
pub struct AudioApp {
    pub serial: u64,
    pub name: String,
    /// `application.process.id`, when the app reports it.
    pub pid: Option<u32>,
}

} // verus!

verus! {

/// What the PipeWire graph looks like, as far as finding the sink needs: our own capture
/// stream's node, every sink's node with the last latency it reported (of whatever type
/// the app keeps latencies in), and the links between nodes as (the node feeding, the
/// node fed), in the order they were seen.
#[derive(Clone, Debug, PartialEq, Eq)]
pub struct SinkGraph<L> {
    pub ours: Option<u32>,
    pub sinks: Vec<(u32, Option<L>)>,
    pub links: Vec<(u32, u32)>,
}

/// The first link from `k` on that feeds `ours` from a sink: its sink.
pub open spec fn direct_sink(links: Seq<(u32, u32)>, sinks: Seq<u32>, ours: u32, k: int) -> Option<u32>
    decreases links.len() - k,
{
    if k < 0 || k >= links.len() {
        None
    } else if links[k].1 == ours && sinks.contains(links[k].0) {
        Some(links[k].0)
    } else {
        direct_sink(links, sinks, ours, k + 1)
    }
}

/// The first link from `k` on that goes from `app` into a sink: that sink.
pub open spec fn sink_fed_by(links: Seq<(u32, u32)>, sinks: Seq<u32>, app: u32, k: int) -> Option<u32>
    decreases links.len() - k,
{
    if k < 0 || k >= links.len() {
        None
    } else if links[k].0 == app && sinks.contains(links[k].1) {
        Some(links[k].1)
    } else {
        sink_fed_by(links, sinks, app, k + 1)
    }
}

/// For the first link from `k` on that feeds `ours` from a node that itself feeds a
/// sink: that sink.
pub open spec fn sink_via_app(links: Seq<(u32, u32)>, sinks: Seq<u32>, ours: u32, k: int) -> Option<u32>
    decreases links.len() - k,
{
    if k < 0 || k >= links.len() {
        None
    } else if links[k].1 == ours && sink_fed_by(links, sinks, links[k].0, 0) is Some {
        sink_fed_by(links, sinks, links[k].0, 0)
    } else {
        sink_via_app(links, sinks, ours, k + 1)
    }
}

/// The sink the sound being captured goes out through: on a monitor capture the node
/// feeding us is the sink itself; capturing one app, it is where that app's stream
/// plays.
pub open spec fn spec_sink<L>(g: SinkGraph<L>) -> Option<u32> {
    match g.ours {
        None => None,
        Some(ours) => match direct_sink(g.links@, sink_ids(g.sinks@), ours, 0) {
            Some(s) => Some(s),
            None => sink_via_app(g.links@, sink_ids(g.sinks@), ours, 0),
        },
    }
}

/// The node ids of the sinks.
pub open spec fn sink_ids<L>(sinks: Seq<(u32, Option<L>)>) -> Seq<u32> {
    sinks.map_values(|e: (u32, Option<L>)| e.0)
}

/// What the first entry for sink `id` last reported.
pub open spec fn reported<L>(sinks: Seq<(u32, Option<L>)>, id: u32) -> Option<L>
    decreases sinks.len(),
{
    if sinks.len() == 0 {
        None
    } else if sinks[0].0 == id {
        sinks[0].1
    } else {
        reported(sinks.drop_first(), id)
    }
}

fn contains_id<L>(v: &Vec<(u32, Option<L>)>, id: u32) -> (r: bool)
    ensures
        r == sink_ids(v@).contains(id),
{
    let mut i: usize = 0;
    while i < v.len()
        invariant
            i <= v.len(),
            forall|j: int| 0 <= j < i ==> #[trigger] v@[j].0 != id,
        decreases v.len() - i,
    {
        if v[i].0 == id {
            assert(sink_ids(v@)[i as int] == id);
            return true;
        }
        i = i + 1;
    }
    assert forall|j: int| 0 <= j < sink_ids(v@).len() implies #[trigger] sink_ids(v@)[j] != id by {
        assert(v@[j].0 != id);
    }
    false
}

fn reported_by<L: Copy>(v: &Vec<(u32, Option<L>)>, id: u32) -> (r: Option<L>)
    ensures
        r == reported(v@, id),
{
    let mut i: usize = 0;
    assert(v@.subrange(0, v@.len() as int) =~= v@);
    while i < v.len()
        invariant
            i <= v.len(),
            reported(v@, id) == reported(v@.subrange(i as int, v@.len() as int), id),
        decreases v.len() - i,
    {
        let ghost rest = v@.subrange(i as int, v@.len() as int);
        assert(rest.drop_first() =~= v@.subrange(i + 1, v@.len() as int));
        if v[i].0 == id {
            return v[i].1;
        }
        i = i + 1;
    }
    None
}

fn find_sink_fed_by<L>(links: &Vec<(u32, u32)>, sinks: &Vec<(u32, Option<L>)>, app: u32) -> (r: Option<u32>)
    ensures
        r == sink_fed_by(links@, sink_ids(sinks@), app, 0),
{
    let mut k: usize = 0;
    while k < links.len()
        invariant
            k <= links.len(),
            sink_fed_by(links@, sink_ids(sinks@), app, 0) == sink_fed_by(links@, sink_ids(sinks@), app, k as int),
        decreases links.len() - k,
    {
        let (from, to) = links[k];
        if from == app && contains_id(sinks, to) {
            return Some(to);
        }
        k = k + 1;
    }
    None
}

impl<L: Copy> SinkGraph<L> {
    /// The sink the sound being captured goes out through.
    pub fn sink(&self) -> (r: Option<u32>)
        ensures
            r == spec_sink(*self),
    {
        let ours = match self.ours {
            Some(o) => o,
            None => { return None; },
        };
        let mut k: usize = 0;
        while k < self.links.len()
            invariant
                self.ours == Some(ours),
                k <= self.links.len(),
                direct_sink(self.links@, sink_ids(self.sinks@), ours, 0) == direct_sink(self.links@, sink_ids(self.sinks@), ours, k as int),
            decreases self.links.len() - k,
        {
            let (from, to) = self.links[k];
            if to == ours && contains_id(&self.sinks, from) {
                return Some(from);
            }
            k = k + 1;
        }
        let mut k: usize = 0;
        while k < self.links.len()
            invariant
                self.ours == Some(ours),
                direct_sink(self.links@, sink_ids(self.sinks@), ours, 0) is None,
                k <= self.links.len(),
                sink_via_app(self.links@, sink_ids(self.sinks@), ours, 0) == sink_via_app(self.links@, sink_ids(self.sinks@), ours, k as int),
            decreases self.links.len() - k,
        {
            let (app, to) = self.links[k];
            if to == ours {
                let found = find_sink_fed_by(&self.links, &self.sinks, app);
                if found.is_some() {
                    return found;
                }
            }
            k = k + 1;
        }
        None
    }

    /// What the sink the sound goes out through last reported, when there is such a
    /// sink and it has reported.
    pub fn latency(&self) -> (r: Option<L>)
        ensures
            r == match spec_sink(*self) {
                Some(s) => reported(self.sinks@, s),
                None => None,
            },
    {
        match self.sink() {
            Some(s) => reported_by(&self.sinks, s),
            None => None,
        }
    }
}

proof fn lemma_direct_sink_found(links: Seq<(u32, u32)>, sinks: Seq<u32>, ours: u32, k: int)
    requires
        0 <= k,
    ensures
        direct_sink(links, sinks, ours, k) matches Some(s) ==> exists|i: int| k <= i < links.len()
            && (#[trigger] links[i]) == (s, ours) && sinks.contains(s),
    decreases links.len() - k,
{
    if k < links.len() {
        lemma_direct_sink_found(links, sinks, ours, k + 1);
    }
}

proof fn lemma_fed_by_found(links: Seq<(u32, u32)>, sinks: Seq<u32>, app: u32, k: int)
    requires
        0 <= k,
    ensures
        sink_fed_by(links, sinks, app, k) matches Some(s) ==> exists|i: int| k <= i < links.len()
            && (#[trigger] links[i]) == (app, s) && sinks.contains(s),
    decreases links.len() - k,
{
    if k < links.len() {
        lemma_fed_by_found(links, sinks, app, k + 1);
    }
}

proof fn lemma_via_app_found(links: Seq<(u32, u32)>, sinks: Seq<u32>, ours: u32, k: int)
    requires
        0 <= k,
    ensures
        sink_via_app(links, sinks, ours, k) matches Some(s) ==> exists|i: int, j: int|
            0 <= i < links.len() && 0 <= j < links.len()
            && (#[trigger] links[i]).1 == ours && (#[trigger] links[j]) == (links[i].0, s) && sinks.contains(s),
    decreases links.len() - k,
{
    if k < links.len() {
        lemma_via_app_found(links, sinks, ours, k + 1);
        if links[k].1 == ours && sink_fed_by(links, sinks, links[k].0, 0) is Some {
            lemma_fed_by_found(links, sinks, links[k].0, 0);
        }
    }
}

/// The sink found is always a sink, and it is linked to what we capture: directly, or
/// through the one node between them.
pub proof fn lemma_sink_is_linked<L>(g: SinkGraph<L>)
    ensures
        spec_sink(g) matches Some(s) ==> sink_ids(g.sinks@).contains(s) && g.ours is Some && (
            (exists|i: int| 0 <= i < g.links@.len() && #[trigger] g.links@[i] == (s, g.ours.unwrap()))
            || (exists|i: int, j: int| 0 <= i < g.links@.len() && 0 <= j < g.links@.len()
                && (#[trigger] g.links@[i]).1 == g.ours.unwrap()
                && (#[trigger] g.links@[j]) == (g.links@[i].0, s))),
{
    if let Some(ours) = g.ours {
        lemma_direct_sink_found(g.links@, sink_ids(g.sinks@), ours, 0);
        lemma_via_app_found(g.links@, sink_ids(g.sinks@), ours, 0);
    }
}

/// Nothing is found before we know our own node.
pub proof fn lemma_no_sink_without_our_node<L>(g: SinkGraph<L>)
    requires
        g.ours is None,
    ensures
        spec_sink(g) is None,
{
}

} // verus!

verus! {

/// A PipeWire capture stream's state, as its `state_changed` callback reports it.
#[derive(Clone, Debug, PartialEq, Eq)]
pub enum StreamPhase {
    Unconnected,
    Connecting,
    Paused,
    Streaming,
    Error(String),
}

/// What the status line calls a target: the whole system, or one app's name and "only".
pub open spec fn target_text(t: Target) -> Seq<char> {
    match t {
        Target::WholeSystem => "Whole system"@,
        Target::Node { name, .. } => name@ + " only"@,
    }
}

/// What the status line calls `t`.
pub fn target_label(t: &Target) -> (r: String)
    ensures
        r@ == target_text(*t),
{
    match t {
        Target::WholeSystem => text::string_of(&text::chars_of("Whole system")),
        Target::Node { name, .. } => {
            let mut v = text::chars_of(name.as_str());
            let tail = text::chars_of(" only");
            let ghost start = v@;
            let mut j: usize = 0;
            while j < tail.len()
                invariant
                    j <= tail@.len(),
                    v@ == start + tail@.subrange(0, j as int),
                decreases tail@.len() - j,
            {
                v.push(tail[j]);
                j = j + 1;
                proof {
                    assert(v@ =~= start + tail@.subrange(0, j as int));
                }
            }
            proof {
                assert(tail@.subrange(0, tail@.len() as int) =~= tail@);
            }
            text::string_of(&v)
        },
    }
}

/// The status a stream state means, and whether data is now flowing (`None` where the
/// state says nothing about it). A streaming stream's status reads `running`, which the
/// caller writes from the target and the sample rate.
pub fn stream_status(phase: StreamPhase, running: String) -> (r: (SourceStatus, Option<bool>))
    ensures
        r == match phase {
            StreamPhase::Streaming => (SourceStatus::Running(running), Some(true)),
            StreamPhase::Error(e) => (SourceStatus::Failed(e), Some(false)),
            StreamPhase::Unconnected => (SourceStatus::NoDevice, Some(false)),
            StreamPhase::Paused => (SourceStatus::Suspended, Some(false)),
            StreamPhase::Connecting => (SourceStatus::Starting, None),
        },
{
    match phase {
        StreamPhase::Streaming => (SourceStatus::Running(running), Some(true)),
        StreamPhase::Error(e) => (SourceStatus::Failed(e), Some(false)),
        StreamPhase::Unconnected => (SourceStatus::NoDevice, Some(false)),
        StreamPhase::Paused => (SourceStatus::Suspended, Some(false)),
        StreamPhase::Connecting => (SourceStatus::Starting, None),
    }
}

} // verus!
