//! Reserved-space bookkeeping for panel and dock windows: each such window
//! may advertise a twelve-field strut descriptor; the registry keeps at most
//! one descriptor per window and folds them into a single inset rectangle
//! for the layout engine.

use vstd::prelude::*;

use crate::WindowId;
use crate::geometry::Reserve;

verus! {

/// A reserved-space declaration from one window: pixel extents at the four
/// screen edges, each with the sub-range of the perpendicular axis it spans.
/// Only the four extents feed the layout; the ranges are kept as advertised.
#[derive(Debug, Clone, Copy, PartialEq, Eq, Structural)]
pub struct Strut {
    pub left: u32,
    pub right: u32,
    pub top: u32,
    pub bottom: u32,
    pub left_start_y: u32,
    pub left_end_y: u32,
    pub right_start_y: u32,
    pub right_end_y: u32,
    pub top_start_x: u32,
    pub top_end_x: u32,
    pub bottom_start_x: u32,
    pub bottom_end_x: u32,
}

impl vstd::std_specs::convert::FromSpecImpl<[u32; 12]> for Strut {
    open spec fn obeys_from_spec() -> bool {
        true
    }

    open spec fn from_spec(v: [u32; 12]) -> Strut {
        Strut {
            left: v[0],
            right: v[1],
            top: v[2],
            bottom: v[3],
            left_start_y: v[4],
            left_end_y: v[5],
            right_start_y: v[6],
            right_end_y: v[7],
            top_start_x: v[8],
            top_end_x: v[9],
            bottom_start_x: v[10],
            bottom_end_x: v[11],
        }
    }
}

impl From<[u32; 12]> for Strut {
    /// Reads the twelve fields in property order: the four extents first,
    /// then the four start/end pairs.
    fn from(value: [u32; 12]) -> (r: Strut) {
        Strut {
            left: value[0],
            right: value[1],
            top: value[2],
            bottom: value[3],
            left_start_y: value[4],
            left_end_y: value[5],
            right_start_y: value[6],
            right_end_y: value[7],
            top_start_x: value[8],
            top_end_x: value[9],
            bottom_start_x: value[10],
            bottom_end_x: value[11],
        }
    }
}

/// Whether no window appears twice among the entries of `s`.
pub open spec fn unique_keys(s: Seq<(WindowId, Strut)>) -> bool {
    forall|i: int, j: int| 0 <= i < j < s.len() ==> (#[trigger] s[i]).0 != (#[trigger] s[j]).0
}

/// Whether `s` holds an entry whose key is `w`.
pub open spec fn has_key(s: Seq<(WindowId, Strut)>, w: WindowId) -> bool {
    exists|i: int| 0 <= i < s.len() && s[i].0 == w
}

/// The index of the entry whose key is `w` (unique when the keys are).
pub open spec fn key_index(s: Seq<(WindowId, Strut)>, w: WindowId) -> int {
    choose|i: int| 0 <= i < s.len() && s[i].0 == w
}

/// The strut registered for `w`, if any.
pub open spec fn strut_of(s: Seq<(WindowId, Strut)>, w: WindowId) -> Option<Strut> {
    if has_key(s, w) {
        Some(s[key_index(s, w)].1)
    } else {
        None
    }
}

/// The larger of two values.
pub open spec fn spec_max_u32(a: u32, b: u32) -> u32 {
    if a >= b {
        a
    } else {
        b
    }
}

/// The fold of all registered struts into one inset: per edge, the maximum
/// extent any window reserves.
pub open spec fn spec_reserve_of(s: Seq<(WindowId, Strut)>) -> Reserve
    decreases s.len(),
{
    if s.len() == 0 {
        Reserve { x0: 0, y0: 0, x1: 0, y1: 0 }
    } else {
        let r = spec_reserve_of(s.drop_last());
        let st = s.last().1;
        Reserve {
            x0: spec_max_u32(r.x0, st.left),
            y0: spec_max_u32(r.y0, st.top),
            x1: spec_max_u32(r.x1, st.right),
            y1: spec_max_u32(r.y1, st.bottom),
        }
    }
}

/// The strut a raw property reply denotes: the first twelve values, or
/// nothing when the reply is shorter.
pub open spec fn spec_strut_from(values: Seq<u32>) -> Option<Strut> {
    if values.len() < 12 {
        None
    } else {
        Some(
            Strut {
                left: values[0],
                right: values[1],
                top: values[2],
                bottom: values[3],
                left_start_y: values[4],
                left_end_y: values[5],
                right_start_y: values[6],
                right_end_y: values[7],
                top_start_x: values[8],
                top_end_x: values[9],
                bottom_start_x: values[10],
                bottom_end_x: values[11],
            },
        )
    }
}

/// Reads a strut from a raw property reply: twelve values are required,
/// any beyond the twelfth are ignored.
pub fn strut_from_property(values: &Vec<u32>) -> (r: Option<Strut>)
    ensures
        r == spec_strut_from(values@),
{
    if values.len() < 12 {
        return None;
    }
    Some(
        Strut {
            left: values[0],
            right: values[1],
            top: values[2],
            bottom: values[3],
            left_start_y: values[4],
            left_end_y: values[5],
            right_start_y: values[6],
            right_end_y: values[7],
            top_start_x: values[8],
            top_end_x: values[9],
            bottom_start_x: values[10],
            bottom_end_x: values[11],
        },
    )
}

/// The strut registry: at most one strut per window, in registration order.
#[derive(Debug, Clone)]
pub struct StrutMap {
    entries: Vec<(WindowId, Strut)>,
}

impl View for StrutMap {
    type V = Seq<(WindowId, Strut)>;

    closed spec fn view(&self) -> Seq<(WindowId, Strut)> {
        self.entries@
    }
}

impl StrutMap {
    /// Each window appears at most once.
    pub open spec fn wf(&self) -> bool {
        unique_keys(self@)
    }

    /// An empty registry.
    pub fn new() -> (r: StrutMap)
        ensures
            r@ == Seq::<(WindowId, Strut)>::empty(),
            r.wf(),
    {
        StrutMap { entries: Vec::new() }
    }

    /// Registers or updates the strut for `w`: an existing entry is replaced
    /// in place, a new one appended.
    pub fn insert(&mut self, w: WindowId, s: Strut)
        requires
            old(self).wf(),
        ensures
            final(self).wf(),
            final(self)@ == if has_key(old(self)@, w) {
                old(self)@.update(key_index(old(self)@, w), (w, s))
            } else {
                old(self)@.push((w, s))
            },
            strut_of(final(self)@, w) == Some(s),
    {
        let ghost pre = self@;
        let n = self.entries.len();
        let mut i: usize = 0;
        while i < n
            invariant
                n == self.entries.len(),
                i <= n,
                self@ == pre,
                pre == old(self)@,
                unique_keys(pre),
                forall|k: int| 0 <= k < i ==> (#[trigger] pre[k]).0 != w,
            decreases n - i,
        {
            if self.entries[i].0 == w {
                self.entries[i] = (w, s);
                proof {
                    assert(has_key(pre, w)) by {
                        assert(pre[i as int].0 == w);
                    }
                    assert(key_index(pre, w) == i as int) by {
                        let j = key_index(pre, w);
                        assert(0 <= j < pre.len() && pre[j].0 == w);
                    }
                    let post = self@;
                    assert(post[i as int].0 == w);
                    assert(has_key(post, w));
                    assert(key_index(post, w) == i as int) by {
                        let j = key_index(post, w);
                        if j != i as int {
                            assert(post[j] == pre[j]);
                        }
                    }
                }
                return ;
            }
            i += 1;
        }
        assert(!has_key(pre, w));
        self.entries.push((w, s));
        proof {
            let post = self@;
            assert(post[post.len() - 1].0 == w);
            assert(has_key(post, w));
            assert(key_index(post, w) == post.len() - 1) by {
                let j = key_index(post, w);
                if j != post.len() - 1 {
                    assert(pre[j].0 == w);
                }
            }
        }
    }

    /// Drops the strut for `w`, if one is registered; other entries keep
    /// their order.
    pub fn remove(&mut self, w: WindowId)
        requires
            old(self).wf(),
        ensures
            final(self).wf(),
            final(self)@ == if has_key(old(self)@, w) {
                old(self)@.remove(key_index(old(self)@, w))
            } else {
                old(self)@
            },
            strut_of(final(self)@, w) == None::<Strut>,
    {
        let ghost pre = self@;
        let n = self.entries.len();
        let mut i: usize = 0;
        while i < n
            invariant
                n == self.entries.len(),
                i <= n,
                self@ == pre,
                pre == old(self)@,
                unique_keys(pre),
                forall|k: int| 0 <= k < i ==> (#[trigger] pre[k]).0 != w,
            decreases n - i,
        {
            if self.entries[i].0 == w {
                self.entries.remove(i);
                proof {
                    assert(has_key(pre, w)) by {
                        assert(pre[i as int].0 == w);
                    }
                    assert(key_index(pre, w) == i as int) by {
                        let j = key_index(pre, w);
                        assert(0 <= j < pre.len() && pre[j].0 == w);
                    }
                    let post = self@;
                    assert forall|j: int| 0 <= j < post.len() implies (#[trigger] post[j]).0
                        != w by {
                        if j < i as int {
                            assert(post[j] == pre[j]);
                        } else {
                            assert(post[j] == pre[j + 1]);
                        }
                    }
                }
                return ;
            }
            i += 1;
        }
        assert(!has_key(pre, w));
    }

    /// The number of registered struts.
    pub fn len(&self) -> (r: usize)
        ensures
            r == self@.len(),
    {
        self.entries.len()
    }

    /// Folds every registered strut into the four screen-edge insets the
    /// layout engine subtracts from the screen.
    pub fn reserved_space(&self) -> (r: Reserve)
        ensures
            r == spec_reserve_of(self@),
    {
        let mut r = Reserve { x0: 0, y0: 0, x1: 0, y1: 0 };
        let n = self.entries.len();
        let mut i: usize = 0;
        while i < n
            invariant
                n == self.entries.len(),
                i <= n,
                r == spec_reserve_of(self@.take(i as int)),
            decreases n - i,
        {
            let st = self.entries[i].1;
            r.x0 = if r.x0 >= st.left {
                r.x0
            } else {
                st.left
            };
            r.y0 = if r.y0 >= st.top {
                r.y0
            } else {
                st.top
            };
            r.x1 = if r.x1 >= st.right {
                r.x1
            } else {
                st.right
            };
            r.y1 = if r.y1 >= st.bottom {
                r.y1
            } else {
                st.bottom
            };
            proof {
                assert(self@.take(i + 1).drop_last() =~= self@.take(i as int));
                assert(self@.take(i + 1).last() == self@[i as int]);
            }
            i += 1;
        }
        assert(self@.take(n as int) =~= self@);
        r
    }
}

} // verus!
