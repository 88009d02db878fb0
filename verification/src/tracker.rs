//! The output tracker and dispatch state: per-output records accumulate
//! identity and geometry events until the output is ready, then each promoted
//! output owns exactly one display surface; retraction and closed notices
//! tear the surface down. The post-batch phase turns pending configures into
//! acknowledgments and marks surfaces for re-render.

use vstd::prelude::*;
use vstd::pervasive::VecAdditionalExecFns;

use crate::surface::DisplaySurface;
use crate::surface::Request;

verus! {

/// A transient record of an output being described: identity plus whatever
/// optional fields have arrived so far.
#[derive(Debug, PartialEq)]
pub struct OutputInfo {
    /// Identity of the bound output object; its events carry it.
    pub object_id: u64,
    /// The registry name the output was advertised under.
    pub global_name: u32,
    pub name: Option<String>,
    pub desc: Option<String>,
    pub x: Option<i32>,
    pub y: Option<i32>,
}

impl OutputInfo {
    /// The record a newly bound output starts from: every optional field
    /// unset.
    pub open spec fn initial(object_id: u64, global_name: u32) -> OutputInfo {
        OutputInfo { object_id, global_name, name: None, desc: None, x: None, y: None }
    }

    pub fn new(object_id: u64, global_name: u32) -> (r: OutputInfo)
        ensures
            r == OutputInfo::initial(object_id, global_name),
    {
        OutputInfo { object_id, global_name, name: None, desc: None, x: None, y: None }
    }
}

/// Outputs still being described never share a registry name or an object
/// identity.
pub open spec fn outputs_distinct(s: Seq<OutputInfo>) -> bool {
    forall|i: int, j: int|
        #![trigger s[i], s[j]]
        0 <= i < j < s.len() ==> s[i].global_name != s[j].global_name && s[i].object_id
            != s[j].object_id
}

/// Display surfaces never share a registry name, an output identity, or a
/// layer-surface identity: exactly one surface per live output.
pub open spec fn displays_distinct(s: Seq<DisplaySurface>) -> bool {
    forall|i: int, j: int|
        #![trigger s[i], s[j]]
        0 <= i < j < s.len() ==> s[i].global_name != s[j].global_name && s[i].output_id
            != s[j].output_id && s[i].layer_surface_id != s[j].layer_surface_id
}

/// An output is either still being described or promoted, never both.
pub open spec fn names_disjoint(outs: Seq<OutputInfo>, ds: Seq<DisplaySurface>) -> bool {
    forall|i: int, j: int|
        #![trigger outs[i], ds[j]]
        0 <= i < outs.len() && 0 <= j < ds.len() ==> outs[i].global_name != ds[j].global_name
}

/// The tracking state one dispatch thread owns: outputs being described and
/// the display surfaces of promoted outputs.
pub struct State {
    pub outputs: Vec<OutputInfo>,
    pub displays: Vec<DisplaySurface>,
    /// Whether the optional scaling capability was bound; without it each
    /// surface simply gets a buffer of exactly the negotiated pixel size.
    pub has_viewporter: bool,
}

impl State {
    /// Identities are unique across the tracked records, every display
    /// surface is itself well formed, and a surface owns a viewport only
    /// when the scaling capability was bound.
    pub open spec fn wf(self) -> bool {
        &&& outputs_distinct(self.outputs@)
        &&& displays_distinct(self.displays@)
        &&& names_disjoint(self.outputs@, self.displays@)
        &&& forall|i: int|
            0 <= i < self.displays@.len() ==> (#[trigger] self.displays@[i]).wf()
        &&& forall|i: int|
            0 <= i < self.displays@.len() ==> ((#[trigger] self.displays@[i]).viewport_id is Some
                ==> self.has_viewporter)
    }

    pub fn new(has_viewporter: bool) -> (r: State)
        ensures
            r.wf(),
            r.outputs@.len() == 0,
            r.displays@.len() == 0,
            r.has_viewporter == has_viewporter,
    {
        State { outputs: Vec::new(), displays: Vec::new(), has_viewporter }
    }

    fn find_output_by_object(&self, object_id: u64) -> (r: Option<usize>)
        ensures
            r matches Some(i) ==> i < self.outputs@.len() && self.outputs@[i as int].object_id
                == object_id,
            r is None ==> forall|k: int|
                0 <= k < self.outputs@.len() ==> (#[trigger] self.outputs@[k]).object_id
                    != object_id,
    {
        let n = self.outputs.len();
        let mut i: usize = 0;
        while i < n
            invariant
                i <= n,
                n == self.outputs@.len(),
                forall|k: int|
                    0 <= k < i ==> (#[trigger] self.outputs@[k]).object_id != object_id,
            decreases n - i,
        {
            if self.outputs[i].object_id == object_id {
                return Some(i);
            }
            i = i + 1;
        }
        None
    }

    fn find_output_by_name(&self, global_name: u32) -> (r: Option<usize>)
        ensures
            r matches Some(i) ==> i < self.outputs@.len() && self.outputs@[i as int].global_name
                == global_name,
            r is None ==> forall|k: int|
                0 <= k < self.outputs@.len() ==> (#[trigger] self.outputs@[k]).global_name
                    != global_name,
    {
        let n = self.outputs.len();
        let mut i: usize = 0;
        while i < n
            invariant
                i <= n,
                n == self.outputs@.len(),
                forall|k: int|
                    0 <= k < i ==> (#[trigger] self.outputs@[k]).global_name != global_name,
            decreases n - i,
        {
            if self.outputs[i].global_name == global_name {
                return Some(i);
            }
            i = i + 1;
        }
        None
    }

    fn find_display_by_name(&self, global_name: u32) -> (r: Option<usize>)
        ensures
            r matches Some(i) ==> i < self.displays@.len() && self.displays@[i as int].global_name
                == global_name,
            r is None ==> forall|k: int|
                0 <= k < self.displays@.len() ==> (#[trigger] self.displays@[k]).global_name
                    != global_name,
    {
        let n = self.displays.len();
        let mut i: usize = 0;
        while i < n
            invariant
                i <= n,
                n == self.displays@.len(),
                forall|k: int|
                    0 <= k < i ==> (#[trigger] self.displays@[k]).global_name != global_name,
            decreases n - i,
        {
            if self.displays[i].global_name == global_name {
                return Some(i);
            }
            i = i + 1;
        }
        None
    }

    fn find_display_by_layer(&self, layer_surface_id: u64) -> (r: Option<usize>)
        ensures
            r matches Some(i) ==> i < self.displays@.len()
                && self.displays@[i as int].layer_surface_id == layer_surface_id,
            r is None ==> forall|k: int|
                0 <= k < self.displays@.len() ==> (#[trigger] self.displays@[k]).layer_surface_id
                    != layer_surface_id,
    {
        let n = self.displays.len();
        let mut i: usize = 0;
        while i < n
            invariant
                i <= n,
                n == self.displays@.len(),
                forall|k: int|
                    0 <= k < i ==> (#[trigger] self.displays@[k]).layer_surface_id
                        != layer_surface_id,
            decreases n - i,
        {
            if self.displays[i].layer_surface_id == layer_surface_id {
                return Some(i);
            }
            i = i + 1;
        }
        None
    }

    fn find_display_by_output(&self, output_id: u64) -> (r: Option<usize>)
        ensures
            r matches Some(i) ==> i < self.displays@.len() && self.displays@[i as int].output_id
                == output_id,
            r is None ==> forall|k: int|
                0 <= k < self.displays@.len() ==> (#[trigger] self.displays@[k]).output_id
                    != output_id,
    {
        let n = self.displays.len();
        let mut i: usize = 0;
        while i < n
            invariant
                i <= n,
                n == self.displays@.len(),
                forall|k: int|
                    0 <= k < i ==> (#[trigger] self.displays@[k]).output_id != output_id,
            decreases n - i,
        {
            if self.displays[i].output_id == output_id {
                return Some(i);
            }
            i = i + 1;
        }
        None
    }
}

/// Two outputs with the same registry name are the same record.
pub proof fn lemma_output_name_unique(s: Seq<OutputInfo>, i: int, j: int)
    requires
        outputs_distinct(s),
        0 <= i < s.len(),
        0 <= j < s.len(),
        s[i].global_name == s[j].global_name,
    ensures
        i == j,
{
}

/// Two outputs with the same object identity are the same record.
pub proof fn lemma_output_object_unique(s: Seq<OutputInfo>, i: int, j: int)
    requires
        outputs_distinct(s),
        0 <= i < s.len(),
        0 <= j < s.len(),
        s[i].object_id == s[j].object_id,
    ensures
        i == j,
{
}

/// For every output that reached the ready state there is exactly one display
/// surface: two surfaces for the same registry name are the same surface.
pub proof fn lemma_display_name_unique(s: Seq<DisplaySurface>, i: int, j: int)
    requires
        displays_distinct(s),
        0 <= i < s.len(),
        0 <= j < s.len(),
        s[i].global_name == s[j].global_name,
    ensures
        i == j,
{
}

/// Two surfaces with the same layer-surface identity are the same surface.
pub proof fn lemma_display_layer_unique(s: Seq<DisplaySurface>, i: int, j: int)
    requires
        displays_distinct(s),
        0 <= i < s.len(),
        0 <= j < s.len(),
        s[i].layer_surface_id == s[j].layer_surface_id,
    ensures
        i == j,
{
}

proof fn lemma_outputs_same_keys(s1: Seq<OutputInfo>, s2: Seq<OutputInfo>)
    requires
        s1.len() == s2.len(),
        forall|k: int|
            0 <= k < s1.len() ==> (#[trigger] s2[k]).global_name == s1[k].global_name
                && s2[k].object_id == s1[k].object_id,
        outputs_distinct(s1),
    ensures
        outputs_distinct(s2),
{
}

proof fn lemma_displays_same_keys(s1: Seq<DisplaySurface>, s2: Seq<DisplaySurface>)
    requires
        s1.len() == s2.len(),
        forall|k: int|
            0 <= k < s1.len() ==> (#[trigger] s2[k]).global_name == s1[k].global_name
                && s2[k].output_id == s1[k].output_id && s2[k].layer_surface_id
                == s1[k].layer_surface_id,
        displays_distinct(s1),
    ensures
        displays_distinct(s2),
{
}

proof fn lemma_disjoint_same_keys(
    outs1: Seq<OutputInfo>,
    outs2: Seq<OutputInfo>,
    ds1: Seq<DisplaySurface>,
    ds2: Seq<DisplaySurface>,
)
    requires
        outs1.len() == outs2.len(),
        forall|k: int| 0 <= k < outs1.len() ==> (#[trigger] outs2[k]).global_name == outs1[k].global_name,
        ds1.len() == ds2.len(),
        forall|k: int| 0 <= k < ds1.len() ==> (#[trigger] ds2[k]).global_name == ds1[k].global_name,
        names_disjoint(outs1, ds1),
    ensures
        names_disjoint(outs2, ds2),
{
}

proof fn lemma_outputs_remove(s: Seq<OutputInfo>, i: int)
    requires
        outputs_distinct(s),
        0 <= i < s.len(),
    ensures
        outputs_distinct(s.remove(i)),
{
    s.remove_ensures(i);
    assert forall|a: int, b: int|
        0 <= a < b < s.remove(i).len() implies (#[trigger] s.remove(i)[a]).global_name
        != (#[trigger] s.remove(i)[b]).global_name && s.remove(i)[a].object_id
        != s.remove(i)[b].object_id by {
        let a0 = if a < i { a } else { a + 1 };
        let b0 = if b < i { b } else { b + 1 };
        assert(s.remove(i)[a] == s[a0]);
        assert(s.remove(i)[b] == s[b0]);
    }
}

proof fn lemma_displays_remove(s: Seq<DisplaySurface>, i: int)
    requires
        displays_distinct(s),
        0 <= i < s.len(),
    ensures
        displays_distinct(s.remove(i)),
{
    s.remove_ensures(i);
    assert forall|a: int, b: int|
        0 <= a < b < s.remove(i).len() implies (#[trigger] s.remove(i)[a]).global_name
        != (#[trigger] s.remove(i)[b]).global_name && s.remove(i)[a].output_id
        != s.remove(i)[b].output_id && s.remove(i)[a].layer_surface_id
        != s.remove(i)[b].layer_surface_id by {
        let a0 = if a < i { a } else { a + 1 };
        let b0 = if b < i { b } else { b + 1 };
        assert(s.remove(i)[a] == s[a0]);
        assert(s.remove(i)[b] == s[b0]);
    }
}

proof fn lemma_disjoint_remove_output(outs: Seq<OutputInfo>, ds: Seq<DisplaySurface>, i: int)
    requires
        names_disjoint(outs, ds),
        0 <= i < outs.len(),
    ensures
        names_disjoint(outs.remove(i), ds),
{
    outs.remove_ensures(i);
    assert forall|a: int, b: int|
        0 <= a < outs.remove(i).len() && 0 <= b < ds.len() implies (#[trigger] outs.remove(
        i,
    )[a]).global_name != (#[trigger] ds[b]).global_name by {
        let a0 = if a < i { a } else { a + 1 };
        assert(outs.remove(i)[a] == outs[a0]);
    }
}

proof fn lemma_disjoint_remove_display(outs: Seq<OutputInfo>, ds: Seq<DisplaySurface>, i: int)
    requires
        names_disjoint(outs, ds),
        0 <= i < ds.len(),
    ensures
        names_disjoint(outs, ds.remove(i)),
{
    ds.remove_ensures(i);
    assert forall|a: int, b: int|
        0 <= a < outs.len() && 0 <= b < ds.remove(i).len() implies (#[trigger] outs[a]).global_name
        != (#[trigger] ds.remove(i)[b]).global_name by {
        let b0 = if b < i { b } else { b + 1 };
        assert(ds.remove(i)[b] == ds[b0]);
    }
}

/// What holds after one optional field of the output being described was
/// filled in: the matching record gains the field, every other record and all
/// display surfaces stay as they were.
pub open spec fn geometry_post(pre: State, post: State, object_id: u64, x: i32, y: i32) -> bool {
    &&& post.has_viewporter == pre.has_viewporter
    &&& post.displays@ == pre.displays@
    &&& post.outputs@.len() == pre.outputs@.len()
    &&& forall|k: int|
        #![trigger post.outputs@[k]]
        0 <= k < pre.outputs@.len() ==> post.outputs@[k] == (if pre.outputs@[k].object_id
            == object_id {
            OutputInfo { x: Some(x), y: Some(y), ..pre.outputs@[k] }
        } else {
            pre.outputs@[k]
        })
}

/// As `geometry_post`, for the optional name.
pub open spec fn named_post(pre: State, post: State, object_id: u64, name: String) -> bool {
    &&& post.has_viewporter == pre.has_viewporter
    &&& post.displays@ == pre.displays@
    &&& post.outputs@.len() == pre.outputs@.len()
    &&& forall|k: int|
        #![trigger post.outputs@[k]]
        0 <= k < pre.outputs@.len() ==> post.outputs@[k] == (if pre.outputs@[k].object_id
            == object_id {
            OutputInfo { name: Some(name), ..pre.outputs@[k] }
        } else {
            pre.outputs@[k]
        })
}

/// As `geometry_post`, for the optional description.
pub open spec fn described_post(pre: State, post: State, object_id: u64, desc: String) -> bool {
    &&& post.has_viewporter == pre.has_viewporter
    &&& post.displays@ == pre.displays@
    &&& post.outputs@.len() == pre.outputs@.len()
    &&& forall|k: int|
        #![trigger post.outputs@[k]]
        0 <= k < pre.outputs@.len() ==> post.outputs@[k] == (if pre.outputs@[k].object_id
            == object_id {
            OutputInfo { desc: Some(desc), ..pre.outputs@[k] }
        } else {
            pre.outputs@[k]
        })
}

impl State {
    /// Records an output's advertised position. An event naming an unknown or
    /// already promoted identity is ignored without error.
    pub fn update_geometry(&mut self, object_id: u64, x: i32, y: i32)
        requires
            old(self).wf(),
        ensures
            final(self).wf(),
            geometry_post(*old(self), *final(self), object_id, x, y),
    {
        match self.find_output_by_object(object_id) {
            Some(i) => {
                let mut info = self.outputs.remove(i);
                info.x = Some(x);
                info.y = Some(y);
                self.outputs.insert(i, info);
                proof {
                    let outs = old(self).outputs@;
                    let updated = OutputInfo { x: Some(x), y: Some(y), ..outs[i as int] };
                    assert(self.outputs@ =~= outs.update(i as int, updated));
                    assert forall|k: int|
                        0 <= k < outs.len() implies #[trigger] self.outputs@[k] == (if outs[k].object_id
                        == object_id {
                        OutputInfo { x: Some(x), y: Some(y), ..outs[k] }
                    } else {
                        outs[k]
                    }) by {
                        if k != i as int && outs[k].object_id == object_id {
                            lemma_output_object_unique(outs, k, i as int);
                        }
                    }
                    lemma_outputs_same_keys(outs, self.outputs@);
                    lemma_disjoint_same_keys(outs, self.outputs@, self.displays@, self.displays@);
                }
            },
            None => {},
        }
    }

    /// Records an output's advertised name. An event naming an unknown or
    /// already promoted identity is ignored without error.
    pub fn update_name(&mut self, object_id: u64, name: String)
        requires
            old(self).wf(),
        ensures
            final(self).wf(),
            named_post(*old(self), *final(self), object_id, name),
    {
        match self.find_output_by_object(object_id) {
            Some(i) => {
                let mut info = self.outputs.remove(i);
                info.name = Some(name);
                self.outputs.insert(i, info);
                proof {
                    let outs = old(self).outputs@;
                    let updated = OutputInfo { name: Some(name), ..outs[i as int] };
                    assert(self.outputs@ =~= outs.update(i as int, updated));
                    assert forall|k: int|
                        0 <= k < outs.len() implies #[trigger] self.outputs@[k] == (if outs[k].object_id
                        == object_id {
                        OutputInfo { name: Some(name), ..outs[k] }
                    } else {
                        outs[k]
                    }) by {
                        if k != i as int && outs[k].object_id == object_id {
                            lemma_output_object_unique(outs, k, i as int);
                        }
                    }
                    lemma_outputs_same_keys(outs, self.outputs@);
                    lemma_disjoint_same_keys(outs, self.outputs@, self.displays@, self.displays@);
                }
            },
            None => {},
        }
    }

    /// The terminal signal of an output's description arrived: the transient
    /// record is removed and handed out for promotion, whatever optional
    /// fields were populated. An unknown identity is ignored without error.
    pub fn handle_done(&mut self, object_id: u64) -> (r: Option<OutputInfo>)
        requires
            old(self).wf(),
        ensures
            final(self).wf(),
            final(self).has_viewporter == old(self).has_viewporter,
            final(self).displays@ == old(self).displays@,
            ({
                let outs = old(self).outputs@;
                if exists|k: int| 0 <= k < outs.len() && (#[trigger] outs[k]).object_id == object_id {
                    let k = choose|k: int|
                        0 <= k < outs.len() && (#[trigger] outs[k]).object_id == object_id;
                    &&& r == Some(outs[k])
                    &&& final(self).outputs@ == outs.remove(k)
                } else {
                    &&& r is None
                    &&& final(self).outputs@ == outs
                }
            }),
    {
        match self.find_output_by_object(object_id) {
            Some(i) => {
                let info = self.outputs.remove(i);
                proof {
                    let outs = old(self).outputs@;
                    let k = choose|k: int|
                        0 <= k < outs.len() && (#[trigger] outs[k]).object_id == object_id;
                    lemma_output_object_unique(outs, k, i as int);
                    lemma_outputs_remove(outs, i as int);
                    lemma_disjoint_remove_output(outs, old(self).displays@, i as int);
                }
                Some(info)
            },
            None => None,
        }
    }

    /// Records an output's advertised description. An event naming an unknown
    /// or already promoted identity is ignored without error.
    pub fn update_description(&mut self, object_id: u64, desc: String)
        requires
            old(self).wf(),
        ensures
            final(self).wf(),
            described_post(*old(self), *final(self), object_id, desc),
    {
        match self.find_output_by_object(object_id) {
            Some(i) => {
                let mut info = self.outputs.remove(i);
                info.desc = Some(desc);
                self.outputs.insert(i, info);
                proof {
                    let outs = old(self).outputs@;
                    let updated = OutputInfo { desc: Some(desc), ..outs[i as int] };
                    assert(self.outputs@ =~= outs.update(i as int, updated));
                    assert forall|k: int|
                        0 <= k < outs.len() implies #[trigger] self.outputs@[k] == (if outs[k].object_id
                        == object_id {
                        OutputInfo { desc: Some(desc), ..outs[k] }
                    } else {
                        outs[k]
                    }) by {
                        if k != i as int && outs[k].object_id == object_id {
                            lemma_output_object_unique(outs, k, i as int);
                        }
                    }
                    lemma_outputs_same_keys(outs, self.outputs@);
                    lemma_disjoint_same_keys(outs, self.outputs@, self.displays@, self.displays@);
                }
            },
            None => {},
        }
    }
}

/// What one dispatched event asks the transport to do next.
#[derive(Debug, PartialEq)]
pub enum Outcome {
    /// Nothing to do beyond the state change already made.
    NoAction,
    /// Bind the advertised output device, then register it.
    BindOutput { global_name: u32 },
    /// An output left before it was ready: its partial record was discarded
    /// and there is nothing to tear down.
    DroppedPending,
    /// A display surface left the live set: send these destruction requests.
    TornDown { requests: Vec<Request> },
    /// An output completed its description: create its protocol objects and
    /// add the display surface.
    Promoted { info: OutputInfo },
}

/// What holds after a retraction notice: a not-yet-ready output's record is
/// simply dropped; a ready output's surface is removed and owes its teardown
/// requests; an untracked name changes nothing.
pub open spec fn removed_post(pre: State, post: State, name: u32, r: Outcome) -> bool {
    &&& post.has_viewporter == pre.has_viewporter
    &&& {
        let outs = pre.outputs@;
        let ds = pre.displays@;
        if exists|k: int| 0 <= k < outs.len() && (#[trigger] outs[k]).global_name == name {
            let k = choose|k: int| 0 <= k < outs.len() && (#[trigger] outs[k]).global_name == name;
            &&& r == Outcome::DroppedPending
            &&& post.outputs@ == outs.remove(k)
            &&& post.displays@ == ds
        } else if exists|k: int| 0 <= k < ds.len() && (#[trigger] ds[k]).global_name == name {
            let k = choose|k: int| 0 <= k < ds.len() && (#[trigger] ds[k]).global_name == name;
            &&& r matches Outcome::TornDown { requests } && requests@ == ds[k].teardown_seq()
            &&& post.outputs@ == outs
            &&& post.displays@ == ds.remove(k)
        } else {
            &&& r == Outcome::NoAction
            &&& post.outputs@ == outs
            &&& post.displays@ == ds
        }
    }
}

/// What holds after a closed notice for a layer surface: the surface leaves
/// the live set and owes its teardown requests; an unknown identity changes
/// nothing.
pub open spec fn closed_post(pre: State, post: State, layer_surface_id: u64, r: Outcome) -> bool {
    &&& post.has_viewporter == pre.has_viewporter
    &&& post.outputs@ == pre.outputs@
    &&& {
        let ds = pre.displays@;
        if exists|k: int| 0 <= k < ds.len() && (#[trigger] ds[k]).layer_surface_id
            == layer_surface_id {
            let k = choose|k: int|
                0 <= k < ds.len() && (#[trigger] ds[k]).layer_surface_id == layer_surface_id;
            &&& r matches Outcome::TornDown { requests } && requests@ == ds[k].teardown_seq()
            &&& post.displays@ == ds.remove(k)
        } else {
            &&& r == Outcome::NoAction
            &&& post.displays@ == ds
        }
    }
}

/// What holds after a configure event: the matching surface's pending
/// proposal is replaced by the new clamped one, latest wins; an unknown
/// identity changes nothing.
pub open spec fn configure_post(
    pre: State,
    post: State,
    layer_surface_id: u64,
    serial: u32,
    width: u32,
    height: u32,
) -> bool {
    &&& post.has_viewporter == pre.has_viewporter
    &&& post.outputs@ == pre.outputs@
    &&& {
        let ds = pre.displays@;
        if exists|k: int| 0 <= k < ds.len() && (#[trigger] ds[k]).layer_surface_id
            == layer_surface_id {
            let k = choose|k: int|
                0 <= k < ds.len() && (#[trigger] ds[k]).layer_surface_id == layer_surface_id;
            post.displays@ == ds.update(k, ds[k].configure_step(serial, width, height))
        } else {
            post.displays@ == ds
        }
    }
}

impl State {
    /// A retraction notice for an output's registry name. Removal before
    /// ready discards the partial record; removal after ready removes the
    /// display surface and returns the requests that destroy its owned
    /// objects.
    pub fn handle_global_removed(&mut self, name: u32) -> (r: Outcome)
        requires
            old(self).wf(),
        ensures
            final(self).wf(),
            removed_post(*old(self), *final(self), name, r),
    {
        match self.find_output_by_name(name) {
            Some(i) => {
                self.outputs.remove(i);
                proof {
                    let outs = old(self).outputs@;
                    let k = choose|k: int|
                        0 <= k < outs.len() && (#[trigger] outs[k]).global_name == name;
                    lemma_output_name_unique(outs, k, i as int);
                    lemma_outputs_remove(outs, i as int);
                    lemma_disjoint_remove_output(outs, old(self).displays@, i as int);
                }
                Outcome::DroppedPending
            },
            None => {
                match self.find_display_by_name(name) {
                    Some(i) => {
                        let d = self.displays.remove(i);
                        let requests = d.teardown_requests();
                        proof {
                            let ds = old(self).displays@;
                            let k = choose|k: int|
                                0 <= k < ds.len() && (#[trigger] ds[k]).global_name == name;
                            lemma_display_name_unique(ds, k, i as int);
                            lemma_displays_remove(ds, i as int);
                            lemma_disjoint_remove_display(old(self).outputs@, ds, i as int);
                        }
                        Outcome::TornDown { requests }
                    },
                    None => Outcome::NoAction,
                }
            },
        }
    }

    /// A closed notice from a layer surface: whatever state the surface was
    /// in, its owned objects are destroyed and it leaves the live set; any
    /// later event naming the identity will find nothing and be ignored.
    pub fn handle_closed(&mut self, layer_surface_id: u64) -> (r: Outcome)
        requires
            old(self).wf(),
        ensures
            final(self).wf(),
            closed_post(*old(self), *final(self), layer_surface_id, r),
    {
        match self.find_display_by_layer(layer_surface_id) {
            Some(i) => {
                let d = self.displays.remove(i);
                let requests = d.teardown_requests();
                proof {
                    let ds = old(self).displays@;
                    let k = choose|k: int|
                        0 <= k < ds.len() && (#[trigger] ds[k]).layer_surface_id
                            == layer_surface_id;
                    lemma_display_layer_unique(ds, k, i as int);
                    lemma_displays_remove(ds, i as int);
                    lemma_disjoint_remove_display(old(self).outputs@, ds, i as int);
                }
                Outcome::TornDown { requests }
            },
            None => Outcome::NoAction,
        }
    }

    /// A configure event for a layer surface: the clamped size proposal
    /// replaces any pending one; the acknowledgment is owed in the next
    /// post-batch phase. An unknown identity is ignored without error.
    pub fn handle_configure(&mut self, layer_surface_id: u64, serial: u32, width: u32, height: u32)
        requires
            old(self).wf(),
        ensures
            final(self).wf(),
            configure_post(*old(self), *final(self), layer_surface_id, serial, width, height),
    {
        match self.find_display_by_layer(layer_surface_id) {
            Some(i) => {
                let mut d = self.displays[i];
                d.handle_configure(serial, width, height);
                self.displays.set(i, d);
                proof {
                    let ds = old(self).displays@;
                    let k = choose|k: int|
                        0 <= k < ds.len() && (#[trigger] ds[k]).layer_surface_id
                            == layer_surface_id;
                    lemma_display_layer_unique(ds, k, i as int);
                    lemma_displays_same_keys(ds, self.displays@);
                    lemma_disjoint_same_keys(
                        self.outputs@,
                        self.outputs@,
                        ds,
                        self.displays@,
                    );
                }
            },
            None => {},
        }
    }
}

/// The acknowledgment requests owed by a batch of display surfaces, in
/// order: one per pending configure.
pub open spec fn acks_seq(ds: Seq<DisplaySurface>) -> Seq<Request>
    decreases ds.len(),
{
    if ds.len() == 0 {
        seq![]
    } else {
        acks_seq(ds.drop_last()) + ds.last().ack_request()
    }
}

proof fn lemma_acks_seq_snoc(ds: Seq<DisplaySurface>, i: int)
    requires
        0 <= i < ds.len(),
    ensures
        acks_seq(ds.take(i + 1)) == acks_seq(ds.take(i)) + ds[i].ack_request(),
{
    assert(ds.take(i + 1).drop_last() =~= ds.take(i));
    assert(ds.take(i + 1).last() == ds[i]);
}

impl State {
    /// Whether an advertised output may still be registered under this name
    /// and identity: nothing tracked, pending or promoted, already uses them.
    pub open spec fn output_fresh(self, global_name: u32, object_id: u64) -> bool {
        &&& forall|k: int|
            0 <= k < self.outputs@.len() ==> (#[trigger] self.outputs@[k]).global_name
                != global_name && self.outputs@[k].object_id != object_id
        &&& forall|k: int|
            0 <= k < self.displays@.len() ==> (#[trigger] self.displays@[k]).global_name
                != global_name
    }

    /// Whether a freshly created display surface collides with nothing
    /// tracked.
    pub open spec fn display_fresh(self, d: DisplaySurface) -> bool {
        &&& forall|k: int|
            0 <= k < self.displays@.len() ==> (#[trigger] self.displays@[k]).global_name
                != d.global_name && self.displays@[k].output_id != d.output_id
                && self.displays@[k].layer_surface_id != d.layer_surface_id
        &&& forall|k: int|
            0 <= k < self.outputs@.len() ==> (#[trigger] self.outputs@[k]).global_name
                != d.global_name
    }

    /// Starts tracking a bound output device. A name or identity already
    /// tracked is refused, and nothing changes.
    pub fn register_output(&mut self, global_name: u32, object_id: u64) -> (r: bool)
        requires
            old(self).wf(),
        ensures
            final(self).wf(),
            final(self).has_viewporter == old(self).has_viewporter,
            final(self).displays@ == old(self).displays@,
            r == old(self).output_fresh(global_name, object_id),
            r ==> final(self).outputs@ == old(self).outputs@.push(
                OutputInfo::initial(object_id, global_name),
            ),
            !r ==> final(self).outputs@ == old(self).outputs@,
    {
        let by_name = self.find_output_by_name(global_name);
        let by_object = self.find_output_by_object(object_id);
        let display_by_name = self.find_display_by_name(global_name);
        if by_name.is_none() && by_object.is_none() && display_by_name.is_none() {
            self.outputs.push(OutputInfo::new(object_id, global_name));
            proof {
                let outs = old(self).outputs@;
                let ds = self.displays@;
                let new_outs = self.outputs@;
                assert forall|i: int, j: int|
                    0 <= i < j < new_outs.len() implies (#[trigger] new_outs[i]).global_name
                    != (#[trigger] new_outs[j]).global_name && new_outs[i].object_id
                    != new_outs[j].object_id by {
                    if j == outs.len() {
                        assert(new_outs[i] == outs[i]);
                    }
                }
                assert forall|i: int, j: int|
                    0 <= i < new_outs.len() && 0 <= j < ds.len() implies (#[trigger] new_outs[i]).global_name
                    != (#[trigger] ds[j]).global_name by {
                    if i < outs.len() {
                        assert(new_outs[i] == outs[i]);
                    }
                }
            }
            true
        } else {
            false
        }
    }

    /// Adds a promoted output's freshly created display surface to the live
    /// set. A colliding identity, or a viewport without the scaling
    /// capability, is refused, and nothing changes.
    pub fn add_display(&mut self, d: DisplaySurface) -> (r: bool)
        requires
            old(self).wf(),
            d.wf(),
        ensures
            final(self).wf(),
            final(self).has_viewporter == old(self).has_viewporter,
            final(self).outputs@ == old(self).outputs@,
            r == (old(self).display_fresh(d) && (d.viewport_id is Some ==> old(
                self,
            ).has_viewporter)),
            r ==> final(self).displays@ == old(self).displays@.push(d),
            !r ==> final(self).displays@ == old(self).displays@,
    {
        let by_name = self.find_display_by_name(d.global_name);
        let by_output = self.find_display_by_output(d.output_id);
        let by_layer = self.find_display_by_layer(d.layer_surface_id);
        let out_by_name = self.find_output_by_name(d.global_name);
        if by_name.is_none() && by_output.is_none() && by_layer.is_none()
            && out_by_name.is_none() && (d.viewport_id.is_none() || self.has_viewporter) {
            self.displays.push(d);
            proof {
                let outs = self.outputs@;
                let ds = old(self).displays@;
                let new_ds = self.displays@;
                assert forall|i: int, j: int|
                    0 <= i < j < new_ds.len() implies (#[trigger] new_ds[i]).global_name
                    != (#[trigger] new_ds[j]).global_name && new_ds[i].output_id
                    != new_ds[j].output_id && new_ds[i].layer_surface_id
                    != new_ds[j].layer_surface_id by {
                    if j == ds.len() {
                        assert(new_ds[i] == ds[i]);
                    }
                }
                assert forall|i: int, j: int|
                    0 <= i < outs.len() && 0 <= j < new_ds.len() implies (#[trigger] outs[i]).global_name
                    != (#[trigger] new_ds[j]).global_name by {
                    if j < ds.len() {
                        assert(new_ds[j] == ds[j]);
                    }
                }
            }
            true
        } else {
            false
        }
    }

    /// The first post-batch phase: every pending configure becomes an
    /// acknowledgment request, its size becomes the negotiated one, and the
    /// surface is marked dirty. This runs only after the whole batch was
    /// drained, so a surface never renders against a configure that is not
    /// the most recent one observed in the batch.
    pub fn collect_acks(&mut self) -> (acks: Vec<Request>)
        requires
            old(self).wf(),
        ensures
            final(self).wf(),
            final(self).has_viewporter == old(self).has_viewporter,
            final(self).outputs@ == old(self).outputs@,
            final(self).displays@.len() == old(self).displays@.len(),
            forall|k: int|
                0 <= k < old(self).displays@.len() ==> #[trigger] final(self).displays@[k] == old(
                    self,
                ).displays@[k].ack_step(),
            acks@ == acks_seq(old(self).displays@),
    {
        let mut acks: Vec<Request> = Vec::new();
        let n = self.displays.len();
        let mut i: usize = 0;
        while i < n
            invariant
                i <= n,
                n == old(self).displays@.len(),
                self.displays@.len() == n,
                self.outputs@ == old(self).outputs@,
                self.has_viewporter == old(self).has_viewporter,
                old(self).wf(),
                forall|k: int|
                    0 <= k < i ==> #[trigger] self.displays@[k] == old(self).displays@[k].ack_step(),
                forall|k: int| i <= k < n ==> #[trigger] self.displays@[k] == old(self).displays@[k],
                acks@ == acks_seq(old(self).displays@.take(i as int)),
            decreases n - i,
        {
            let mut d = self.displays[i];
            let serial = d.take_ack();
            self.displays.set(i, d);
            match serial {
                Some(s) => {
                    acks.push(Request::AckConfigure { layer_surface: d.layer_surface_id, serial: s });
                },
                None => {},
            }
            proof {
                lemma_acks_seq_snoc(old(self).displays@, i as int);
                assert(acks@ =~= acks_seq(old(self).displays@.take(i as int + 1)));
            }
            i = i + 1;
        }
        proof {
            assert(old(self).displays@.take(n as int) =~= old(self).displays@);
            let ds = old(self).displays@;
            let new_ds = self.displays@;
            assert forall|k: int|
                0 <= k < n implies (#[trigger] new_ds[k]).global_name == ds[k].global_name
                && new_ds[k].output_id == ds[k].output_id && new_ds[k].layer_surface_id
                == ds[k].layer_surface_id && new_ds[k].wf() by {
                assert(new_ds[k] == ds[k].ack_step());
                assert(ds[k].wf());
            }
            lemma_displays_same_keys(ds, new_ds);
            lemma_disjoint_same_keys(self.outputs@, self.outputs@, ds, new_ds);
        }
        acks
    }

    /// The least index of a display surface that still needs a render, at or
    /// after the given index: the post-batch phase re-renders every dirty
    /// surface, skipping none.
    pub fn next_dirty(&self, start: usize) -> (r: Option<usize>)
        ensures
            r matches Some(i) ==> start <= i < self.displays@.len()
                && self.displays@[i as int].dirty && forall|k: int|
                start <= k < i ==> !(#[trigger] self.displays@[k]).dirty,
            r is None ==> forall|k: int|
                start <= k < self.displays@.len() ==> !(#[trigger] self.displays@[k]).dirty,
    {
        let n = self.displays.len();
        let mut i: usize = start;
        while i < n
            invariant
                start <= i,
                n == self.displays@.len(),
                forall|k: int| start <= k < i ==> !(#[trigger] self.displays@[k]).dirty,
            decreases n - i,
        {
            if self.displays[i].dirty {
                return Some(i);
            }
            i = i + 1;
        }
        None
    }

    /// The second post-batch phase, for one surface: a buffer rendered at
    /// the negotiated size was produced; the surface's attach requests are
    /// owed and it is clean until the next configure.
    pub fn complete_render(&mut self, i: usize, buffer: u64) -> (r: Vec<Request>)
        requires
            old(self).wf(),
            i < old(self).displays@.len(),
            old(self).displays@[i as int].configured,
        ensures
            final(self).wf(),
            final(self).has_viewporter == old(self).has_viewporter,
            final(self).outputs@ == old(self).outputs@,
            final(self).displays@ == old(self).displays@.update(
                i as int,
                old(self).displays@[i as int].rendered_step(buffer),
            ),
            r@ == old(self).displays@[i as int].attach_seq(buffer),
    {
        let mut d = self.displays[i];
        let mut reqs: Vec<Request> = Vec::new();
        reqs.push(Request::Attach { surface: d.surface_id, buffer, x: 0, y: 0 });
        reqs.push(
            Request::Damage { surface: d.surface_id, x: 0, y: 0, width: d.width, height: d.height },
        );
        reqs.push(Request::Commit { surface: d.surface_id });
        d.dirty = false;
        d.buffer_id = Some(buffer);
        self.displays.set(i, d);
        proof {
            let ds = old(self).displays@;
            assert(reqs@ =~= ds[i as int].attach_seq(buffer));
            lemma_displays_same_keys(ds, self.displays@);
            lemma_disjoint_same_keys(self.outputs@, self.outputs@, ds, self.displays@);
        }
        reqs
    }

    /// A per-output failure while building or rendering this surface (an
    /// object could not be created, or its buffer could not be allocated):
    /// the surface leaves the live set and its owned objects' destruction
    /// requests are owed; every other output is unaffected.
    pub fn discard_display(&mut self, i: usize) -> (r: Vec<Request>)
        requires
            old(self).wf(),
            i < old(self).displays@.len(),
        ensures
            final(self).wf(),
            final(self).has_viewporter == old(self).has_viewporter,
            final(self).outputs@ == old(self).outputs@,
            final(self).displays@ == old(self).displays@.remove(i as int),
            r@ == old(self).displays@[i as int].teardown_seq(),
    {
        let d = self.displays.remove(i);
        proof {
            lemma_displays_remove(old(self).displays@, i as int);
            lemma_disjoint_remove_display(old(self).outputs@, old(self).displays@, i as int);
        }
        d.teardown_requests()
    }
}

/// Retraction always clears tracking: after a retraction notice no record,
/// pending or ready, carries the retracted name, and if the output was ready
/// the requests destroying its surface's owned objects are owed.
pub proof fn lemma_retraction_clears_tracking(pre: State, post: State, name: u32, r: Outcome)
    requires
        pre.wf(),
        removed_post(pre, post, name, r),
    ensures
        forall|k: int|
            0 <= k < post.outputs@.len() ==> (#[trigger] post.outputs@[k]).global_name != name,
        forall|k: int|
            0 <= k < post.displays@.len() ==> (#[trigger] post.displays@[k]).global_name != name,
        (exists|k: int|
            0 <= k < pre.displays@.len() && (#[trigger] pre.displays@[k]).global_name == name)
            ==> (r matches Outcome::TornDown { requests } && requests@ == pre.displays@[choose|
            k: int,
        |
            0 <= k < pre.displays@.len() && (#[trigger] pre.displays@[k]).global_name
                == name].teardown_seq()),
{
    let outs = pre.outputs@;
    let ds = pre.displays@;
    if exists|k: int| 0 <= k < outs.len() && (#[trigger] outs[k]).global_name == name {
        let k = choose|k: int| 0 <= k < outs.len() && (#[trigger] outs[k]).global_name == name;
        outs.remove_ensures(k);
        assert forall|a: int|
            0 <= a < post.outputs@.len() implies (#[trigger] post.outputs@[a]).global_name
            != name by {
            let a0 = if a < k {
                a
            } else {
                a + 1
            };
            assert(post.outputs@[a] == outs[a0]);
            if outs[a0].global_name == name {
                lemma_output_name_unique(outs, a0, k);
            }
        }
        assert forall|a: int|
            0 <= a < post.displays@.len() implies (#[trigger] post.displays@[a]).global_name
            != name by {
            assert(post.displays@[a] == ds[a]);
        }
        if exists|j: int| 0 <= j < ds.len() && (#[trigger] ds[j]).global_name == name {
            let j = choose|j: int| 0 <= j < ds.len() && (#[trigger] ds[j]).global_name == name;
            assert(outs[k].global_name != ds[j].global_name);
        }
    } else if exists|k: int| 0 <= k < ds.len() && (#[trigger] ds[k]).global_name == name {
        let k = choose|k: int| 0 <= k < ds.len() && (#[trigger] ds[k]).global_name == name;
        ds.remove_ensures(k);
        assert forall|a: int|
            0 <= a < post.displays@.len() implies (#[trigger] post.displays@[a]).global_name
            != name by {
            let a0 = if a < k {
                a
            } else {
                a + 1
            };
            assert(post.displays@[a] == ds[a0]);
            if ds[a0].global_name == name {
                lemma_display_name_unique(ds, a0, k);
            }
        }
    }
}

/// Promotion creates exactly one display surface per ready output: when a
/// promoted output's fresh surface has been added, the only surface carrying
/// that output's identity is the new one.
pub proof fn lemma_promotion_adds_one(ds: Seq<DisplaySurface>, d: DisplaySurface, j: int)
    requires
        displays_distinct(ds.push(d)),
        0 <= j < ds.push(d).len(),
        ds.push(d)[j].output_id == d.output_id,
    ensures
        j == ds.len(),
        ds.push(d)[j] == d,
{
    let s = ds.push(d);
    assert(s[ds.len() as int] == d);
    if j < ds.len() {
        assert(s[j].output_id != s[ds.len() as int].output_id);
    }
}

/// A required singleton capability that was not advertised; its absence is
/// fatal to the whole process.
#[derive(Clone, Copy, Debug, PartialEq, Eq)]
pub enum MissingGlobal {
    Compositor,
    SharedMemoryService,
    LayerShellManager,
}

/// Checks the required singleton capabilities after the initial roundtrip:
/// each must have been advertised exactly where the flag says so. The
/// optional scaling capability is not required; its absence only disables
/// viewport scaling.
pub fn required_globals_ok(compositor: bool, shm: bool, layer_shell: bool) -> (r: Result<
    (),
    MissingGlobal,
>)
    ensures
        r is Ok <==> compositor && shm && layer_shell,
        r == (if !compositor {
            Err::<(), MissingGlobal>(MissingGlobal::Compositor)
        } else if !shm {
            Err::<(), MissingGlobal>(MissingGlobal::SharedMemoryService)
        } else if !layer_shell {
            Err::<(), MissingGlobal>(MissingGlobal::LayerShellManager)
        } else {
            Ok::<(), MissingGlobal>(())
        }),
{
    if !compositor {
        Err(MissingGlobal::Compositor)
    } else if !shm {
        Err(MissingGlobal::SharedMemoryService)
    } else if !layer_shell {
        Err(MissingGlobal::LayerShellManager)
    } else {
        Ok(())
    }
}

/// Whether an advertised interface is the output device interface; only
/// those globals are bound opportunistically.
pub fn is_output_interface(interface: &String) -> (r: bool)
    ensures
        r <==> interface@ == "wl_output"@,
{
    let target: String = "wl_output".to_owned();
    *interface == target
}

/// One global advertised at connection time: its registry name and
/// interface.
#[derive(Debug, PartialEq)]
pub struct GlobalAdvert {
    pub name: u32,
    pub interface: String,
}

/// The registry names of the output devices among a list of advertised
/// globals, in order.
pub open spec fn output_adverts(s: Seq<GlobalAdvert>) -> Seq<u32>
    decreases s.len(),
{
    if s.len() == 0 {
        seq![]
    } else {
        output_adverts(s.drop_last()) + (if s.last().interface@ == "wl_output"@ {
            seq![s.last().name]
        } else {
            seq![]
        })
    }
}

proof fn lemma_output_adverts_snoc(s: Seq<GlobalAdvert>, i: int)
    requires
        0 <= i < s.len(),
    ensures
        output_adverts(s.take(i + 1)) == output_adverts(s.take(i)) + (if s[i].interface@
            == "wl_output"@ {
            seq![s[i].name]
        } else {
            seq![]
        }),
{
    assert(s.take(i + 1).drop_last() =~= s.take(i));
    assert(s.take(i + 1).last() == s[i]);
}

/// Picks the output devices out of the globals advertised at connection
/// time: each is to be bound and registered; every other interface is left
/// alone here.
pub fn select_outputs(globals: &Vec<GlobalAdvert>) -> (r: Vec<u32>)
    ensures
        r@ == output_adverts(globals@),
{
    let mut r: Vec<u32> = Vec::new();
    let n = globals.len();
    let mut i: usize = 0;
    while i < n
        invariant
            i <= n,
            n == globals@.len(),
            r@ == output_adverts(globals@.take(i as int)),
        decreases n - i,
    {
        if is_output_interface(&globals[i].interface) {
            r.push(globals[i].name);
        }
        proof {
            lemma_output_adverts_snoc(globals@, i as int);
            assert(r@ =~= output_adverts(globals@.take(i as int + 1)));
        }
        i = i + 1;
    }
    proof {
        assert(globals@.take(n as int) =~= globals@);
    }
    r
}

/// One decoded event, routed here by the object identity the transport
/// attached to it. The core never parses wire bytes.
#[derive(Debug, PartialEq)]
pub enum Event {
    /// A global was advertised, with its registry name and interface.
    GlobalAdded { name: u32, interface: String },
    /// A global was retracted.
    GlobalRemoved { name: u32 },
    /// An output advertised its position.
    Geometry { output_id: u64, x: i32, y: i32 },
    /// An output advertised its name.
    Name { output_id: u64, name: String },
    /// An output advertised its description.
    Description { output_id: u64, desc: String },
    /// An output finished its description: the terminal signal that promotes
    /// it.
    Done { output_id: u64 },
    /// The server proposed a size for a layer surface.
    Configure { layer_surface_id: u64, serial: u32, width: u32, height: u32 },
    /// The server closed a layer surface.
    Closed { layer_surface_id: u64 },
}

impl State {
    /// Routes one event to its handler and says what the transport must do
    /// next. Every event naming an identity that is not tracked is ignored
    /// without error.
    pub fn handle_event(&mut self, e: Event) -> (r: Outcome)
        requires
            old(self).wf(),
        ensures
            final(self).wf(),
            (match e {
                Event::GlobalAdded { name, interface } => {
                    &&& final(self).outputs@ == old(self).outputs@
                    &&& final(self).displays@ == old(self).displays@
                    &&& final(self).has_viewporter == old(self).has_viewporter
                    &&& r == (if interface@ == "wl_output"@ {
                        Outcome::BindOutput { global_name: name }
                    } else {
                        Outcome::NoAction
                    })
                },
                Event::GlobalRemoved { name } => removed_post(*old(self), *final(self), name, r),
                Event::Geometry { output_id, x, y } => geometry_post(
                    *old(self),
                    *final(self),
                    output_id,
                    x,
                    y,
                ) && r == Outcome::NoAction,
                Event::Name { output_id, name } => named_post(
                    *old(self),
                    *final(self),
                    output_id,
                    name,
                ) && r == Outcome::NoAction,
                Event::Description { output_id, desc } => described_post(
                    *old(self),
                    *final(self),
                    output_id,
                    desc,
                ) && r == Outcome::NoAction,
                Event::Done { output_id } => {
                    &&& final(self).displays@ == old(self).displays@
                    &&& final(self).has_viewporter == old(self).has_viewporter
                    &&& ({
                        let outs = old(self).outputs@;
                        if exists|k: int| 0 <= k < outs.len() && (#[trigger] outs[k]).object_id
                            == output_id {
                            let k = choose|k: int|
                                0 <= k < outs.len() && (#[trigger] outs[k]).object_id == output_id;
                            &&& r == Outcome::Promoted { info: outs[k] }
                            &&& final(self).outputs@ == outs.remove(k)
                        } else {
                            &&& r == Outcome::NoAction
                            &&& final(self).outputs@ == outs
                        }
                    })
                },
                Event::Configure { layer_surface_id, serial, width, height } => configure_post(
                    *old(self),
                    *final(self),
                    layer_surface_id,
                    serial,
                    width,
                    height,
                ) && r == Outcome::NoAction,
                Event::Closed { layer_surface_id } => closed_post(
                    *old(self),
                    *final(self),
                    layer_surface_id,
                    r,
                ),
            }),
    {
        match e {
            Event::GlobalAdded { name, interface } => {
                if is_output_interface(&interface) {
                    Outcome::BindOutput { global_name: name }
                } else {
                    Outcome::NoAction
                }
            },
            Event::GlobalRemoved { name } => self.handle_global_removed(name),
            Event::Geometry { output_id, x, y } => {
                self.update_geometry(output_id, x, y);
                Outcome::NoAction
            },
            Event::Name { output_id, name } => {
                self.update_name(output_id, name);
                Outcome::NoAction
            },
            Event::Description { output_id, desc } => {
                self.update_description(output_id, desc);
                Outcome::NoAction
            },
            Event::Done { output_id } => {
                match self.handle_done(output_id) {
                    Some(info) => Outcome::Promoted { info },
                    None => Outcome::NoAction,
                }
            },
            Event::Configure { layer_surface_id, serial, width, height } => {
                self.handle_configure(layer_surface_id, serial, width, height);
                Outcome::NoAction
            },
            Event::Closed { layer_surface_id } => self.handle_closed(layer_surface_id),
        }
    }
}

} // verus!
