//! The lexical environment: an arena of frames addressed by stable indices.
//!
//! Each frame holds the bindings introduced at one call scope and an optional
//! parent index; the chain of parent indices is rooted at frame `0`. Lookup
//! walks the chain outward, innermost frame first; `define` always writes into
//! the frame it is given, never a parent. Frames are shared by index, so a
//! binding written through one holder is visible to every holder.

use vstd::prelude::*;
use vstd::string::StrSliceExecFns;
use vstd::string::StringExecFns;

use crate::objects::Object;
use crate::objects::ObjV;

verus! {

/// One binding: a name and the value bound to it.
pub struct Binding {
    pub name: String,
    pub value: Object,
}

/// The ghost image of a binding.
#[verifier::ext_equal]
pub struct BindingV {
    pub name: Seq<char>,
    pub value: ObjV,
}

/// One level of the environment chain. Later entries of `bindings` shadow
/// earlier ones of the same name.
pub struct Frame {
    pub parent: Option<usize>,
    pub bindings: Vec<Binding>,
}

/// The ghost image of a frame.
#[verifier::ext_equal]
pub struct FrameV {
    pub parent: Option<int>,
    pub bindings: Seq<BindingV>,
}

impl View for Binding {
    type V = BindingV;

    open spec fn view(&self) -> BindingV {
        BindingV { name: self.name@, value: self.value@ }
    }
}

impl View for Frame {
    type V = FrameV;

    open spec fn view(&self) -> FrameV {
        FrameV {
            parent: match self.parent {
                Some(p) => Some(p as int),
                None => None,
            },
            bindings: Seq::new(self.bindings@.len(), |i: int| self.bindings@[i]@),
        }
    }
}

/// A well-formed chain: every parent index points at an earlier frame, so
/// parent chains terminate at a root.
pub open spec fn st_wf(st: Seq<FrameV>) -> bool {
    forall|i: int|
        0 <= i < st.len() ==> match (#[trigger] st[i]).parent {
            Some(p) => 0 <= p < i,
            None => true,
        }
}

/// The nearest binding of `name` in one frame: the latest entry wins.
pub open spec fn frame_lookup(bs: Seq<BindingV>, name: Seq<char>) -> Option<ObjV>
    decreases bs.len(),
{
    if bs.len() == 0 {
        None
    } else if bs.last().name == name {
        Some(bs.last().value)
    } else {
        frame_lookup(bs.drop_last(), name)
    }
}

/// The nearest binding of `name` walking from frame `f` toward the root.
pub open spec fn env_lookup(st: Seq<FrameV>, f: int, name: Seq<char>) -> Option<ObjV>
    decreases f,
{
    if !(0 <= f < st.len()) {
        None
    } else {
        match frame_lookup(st[f].bindings, name) {
            Some(v) => Some(v),
            None => match st[f].parent {
                Some(p) => if 0 <= p < f {
                    env_lookup(st, p, name)
                } else {
                    None
                },
                None => None,
            },
        }
    }
}

/// The chain after binding `name` to `v` in frame `f` alone.
pub open spec fn env_define(st: Seq<FrameV>, f: int, name: Seq<char>, v: ObjV) -> Seq<FrameV> {
    st.update(
        f,
        FrameV { parent: st[f].parent, bindings: st[f].bindings.push(BindingV { name, value: v }) },
    )
}

/// The chain after creating a fresh empty frame whose parent is `f`.
pub open spec fn env_extend(st: Seq<FrameV>, f: int) -> Seq<FrameV> {
    st.push(FrameV { parent: Some(f), bindings: Seq::empty() })
}

/// Character-wise string equality, specified by the string views.
pub fn str_eq(a: &str, b: &str) -> (r: bool)
    ensures
        r == (a@ == b@),
{
    let n = a.unicode_len();
    let m = b.unicode_len();
    if n != m {
        return false;
    }
    let mut i: usize = 0;
    while i < n
        invariant
            n == a@.len(),
            n == b@.len(),
            i <= n,
            forall|j: int| 0 <= j < i as int ==> a@[j] == b@[j],
        decreases n - i,
    {
        let ca = a.get_char(i);
        let cb = b.get_char(i);
        if ca != cb {
            return false;
        }
        i = i + 1;
    }
    proof {
        assert(a@ =~= b@);
    }
    true
}

/// The environment: every frame created so far, addressed by index. Its ghost
/// image is the sequence of frame images.
pub struct Env {
    frames: Vec<Frame>,
}

impl View for Env {
    type V = Seq<FrameV>;

    closed spec fn view(&self) -> Seq<FrameV> {
        Seq::new(self.frames@.len(), |i: int| self.frames@[i]@)
    }
}

impl Env {
    /// The root environment: a single empty frame with no parent.
    pub fn new() -> (e: Env)
        ensures
            e@.len() == 1,
            e@[0] == (FrameV { parent: None, bindings: Seq::<BindingV>::empty() }),
            st_wf(e@),
    {
        let mut frames: Vec<Frame> = Vec::new();
        frames.push(Frame { parent: None, bindings: Vec::new() });
        let e = Env { frames };
        proof {
            assert(e@[0] =~~= FrameV { parent: None, bindings: Seq::<BindingV>::empty() });
        }
        e
    }

    /// The nearest binding of `name`, walking from `frame` toward the root;
    /// `None` when the chain is exhausted.
    #[verifier::loop_isolation(false)]
    pub fn get_object(&self, frame: usize, name: &str) -> (r: Option<Object>)
        requires
            st_wf(self@),
            frame < self@.len(),
        ensures
            match r {
                Some(o) => env_lookup(self@, frame as int, name@) == Some(o@),
                None => env_lookup(self@, frame as int, name@) is None,
            },
    {
        let mut f = frame;
        loop
            invariant
                f < self@.len(),
                env_lookup(self@, frame as int, name@) == env_lookup(self@, f as int, name@),
            decreases f,
        {
            let frm = &self.frames[f];
            let ghost bs = self@[f as int].bindings;
            let mut j: usize = frm.bindings.len();
            proof {
                assert(bs.take(j as int) =~= bs);
            }
            while j > 0
                invariant
                    j <= frm.bindings@.len(),
                    frame_lookup(bs, name@) == frame_lookup(bs.take(j as int), name@),
                decreases j,
            {
                let b = &frm.bindings[j - 1];
                if str_eq(b.name.as_str(), name) {
                    proof {
                        assert(bs.take(j as int).last() == b@);
                    }
                    return Some(b.value.dup());
                }
                proof {
                    assert(bs.take(j as int).drop_last() =~= bs.take(j as int - 1));
                }
                j = j - 1;
            }
            proof {
                assert(bs.take(0) =~= Seq::<BindingV>::empty());
            }
            match frm.parent {
                Some(p) => {
                    f = p;
                },
                None => {
                    return None;
                },
            }
        }
    }

    /// Binds `name` to `val` in frame `frame` alone, shadowing any earlier
    /// binding of that name there.
    pub fn set_object(&mut self, frame: usize, name: &str, val: Object)
        requires
            st_wf(old(self)@),
            frame < old(self)@.len(),
        ensures
            final(self)@ == env_define(old(self)@, frame as int, name@, val@),
            st_wf(final(self)@),
            final(self)@.len() == old(self)@.len(),
    {
        let mut frm = self.frames.remove(frame);
        frm.bindings.push(Binding { name: String::from_str(name), value: val });
        self.frames.insert(frame, frm);
        proof {
            assert(self@ =~~= env_define(old(self)@, frame as int, name@, val@));
        }
    }

    /// Creates a new empty frame whose parent is `parent`; returns its index.
    pub fn extend(&mut self, parent: usize) -> (g: usize)
        requires
            st_wf(old(self)@),
            parent < old(self)@.len(),
        ensures
            g as int == old(self)@.len(),
            final(self)@ == env_extend(old(self)@, parent as int),
            st_wf(final(self)@),
    {
        let g = self.frames.len();
        self.frames.push(Frame { parent: Some(parent), bindings: Vec::new() });
        proof {
            assert(self@ =~~= env_extend(old(self)@, parent as int));
        }
        g
    }
}

} // verus!
