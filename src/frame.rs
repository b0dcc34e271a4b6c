//! The canonical tracking frame that every decoder produces.
use vstd::prelude::*;

use crate::chars::{chars_eq, chars_of};

verus! {

/// Three components, one per axis.
#[derive(Debug, Clone, PartialEq)]
pub struct Vector3<N> {
    pub x: N,
    pub y: N,
    pub z: N,
}

impl<N: View> View for Vector3<N> {
    type V = Vector3<N::V>;

    open spec fn view(&self) -> Vector3<N::V> {
        Vector3 { x: self.x@, y: self.y@, z: self.z@ }
    }
}

/// Whether no two pairs of `s` share a key.
pub open spec fn keys_unique<W>(s: Seq<(Seq<char>, W)>) -> bool {
    forall|i: int, j: int| 0 <= i < j < s.len() ==> #[trigger] s[i].0 != #[trigger] s[j].0
}

/// The map that inserting the pairs of `s` in order gives.
pub open spec fn pairs_map<W>(s: Seq<(Seq<char>, W)>) -> Map<Seq<char>, W>
    decreases s.len(),
{
    if s.len() == 0 {
        Map::empty()
    } else {
        pairs_map(s.drop_last()).insert(s.last().0, s.last().1)
    }
}

/// The keys and values of a list of pairs.
pub open spec fn pairs_view<W>(v: Seq<(String, W)>) -> Seq<(Seq<char>, W)> {
    v.map_values(|e: (String, W)| (e.0@, e.1))
}

/// Replacing the value of the pair at `j` inserts into the map, when keys are unique.
proof fn lemma_pairs_map_update<W>(s: Seq<(Seq<char>, W)>, j: int, w: W)
    requires
        keys_unique(s),
        0 <= j < s.len(),
    ensures
        pairs_map(s.update(j, (s[j].0, w))) == pairs_map(s).insert(s[j].0, w),
    decreases s.len(),
{
    let t = s.update(j, (s[j].0, w));
    if j == s.len() - 1 {
        assert(t.drop_last() == s.drop_last());
        assert(pairs_map(t) =~= pairs_map(s).insert(s[j].0, w));
    } else {
        let d = s.drop_last();
        assert(t.drop_last() == d.update(j, (d[j].0, w)));
        lemma_pairs_map_update(d, j, w);
        assert(s.last().0 != s[j].0);
        assert(pairs_map(t) =~= pairs_map(s).insert(s[j].0, w));
    }
}

/// Every key of the map is the key of some pair.
proof fn lemma_pairs_map_keys<W>(s: Seq<(Seq<char>, W)>, k: Seq<char>)
    requires
        pairs_map(s).contains_key(k),
    ensures
        exists|i: int| 0 <= i < s.len() && #[trigger] s[i].0 == k,
    decreases s.len(),
{
    if s.last().0 != k {
        lemma_pairs_map_keys(s.drop_last(), k);
        let i = choose|i: int| 0 <= i < s.drop_last().len() && #[trigger] s.drop_last()[i].0 == k;
        assert(s[i].0 == k);
    } else {
        assert(s[s.len() - 1].0 == k);
    }
}

/// Values by name; a later insert under a name replaces the earlier one.
#[derive(Debug, Clone)]
pub struct NameMap<W> {
    entries: Vec<(String, W)>,
}

impl<W> NameMap<W> {
    /// The names and values in the order in which each name first came.
    pub closed spec fn pairs(&self) -> Seq<(Seq<char>, W)> {
        pairs_view(self.entries@)
    }

    /// The value of each name.
    pub open spec fn map(&self) -> Map<Seq<char>, W> {
        pairs_map(self.pairs())
    }

    /// No name occurs twice.
    pub open spec fn wf(&self) -> bool {
        keys_unique(self.pairs())
    }

    /// No names.
    pub fn new() -> (r: NameMap<W>)
        ensures
            r.wf(),
            r.map() == Map::<Seq<char>, W>::empty(),
            r.pairs().len() == 0,
    {
        let r = NameMap { entries: Vec::new() };
        assert(r.pairs() =~= Seq::<(Seq<char>, W)>::empty());
        r
    }

    /// The number of names.
    pub fn len(&self) -> (r: usize)
        ensures
            r == self.pairs().len(),
    {
        self.entries.len()
    }

    /// The name and value at position `i`.
    pub fn entry(&self, i: usize) -> (r: (&String, &W))
        requires
            i < self.pairs().len(),
        ensures
            r.0@ == self.pairs()[i as int].0,
            *r.1 == self.pairs()[i as int].1,
    {
        let e = &self.entries[i];
        (&e.0, &e.1)
    }

    /// The position of `key`, if it is there.
    fn find(&self, key: &Vec<char>) -> (r: Option<usize>)
        ensures
            r matches Some(j) ==> j < self.pairs().len() && self.pairs()[j as int].0 == key@,
            r is None ==> forall|i: int|
                0 <= i < self.pairs().len() ==> #[trigger] self.pairs()[i].0 != key@,
    {
        let mut i: usize = 0;
        while i < self.entries.len()
            invariant
                i <= self.entries@.len(),
                self.pairs().len() == self.entries@.len(),
                forall|k: int| 0 <= k < i ==> #[trigger] self.pairs()[k].0 != key@,
            decreases self.entries@.len() - i,
        {
            let c = chars_of(self.entries[i].0.as_str());
            if chars_eq(&c, key) {
                return Some(i);
            }
            i = i + 1;
        }
        None
    }

    /// Sets the value of `key` to `w`.
    pub fn insert(&mut self, key: String, w: W)
        requires
            old(self).wf(),
        ensures
            final(self).wf(),
            final(self).map() == old(self).map().insert(key@, w),
    {
        let k = chars_of(key.as_str());
        let ghost s = self.pairs();
        match self.find(&k) {
            Some(j) => {
                self.entries.set(j, (key, w));
                proof {
                    lemma_pairs_map_update(s, j as int, w);
                    assert(self.pairs() =~= s.update(j as int, (s[j as int].0, w)));
                }
            },
            None => {
                self.entries.push((key, w));
                proof {
                    assert(self.pairs() =~= s.push((k@, w)));
                    assert(self.pairs().drop_last() == s);
                }
            },
        }
    }

    /// The value of `key`, if it has one.
    pub fn get(&self, key: &str) -> (r: Option<&W>)
        requires
            self.wf(),
        ensures
            r matches Some(w) ==> self.map().contains_key(key@) && self.map()[key@] == *w,
            r is None ==> !self.map().contains_key(key@),
    {
        let k = chars_of(key);
        match self.find(&k) {
            Some(j) => {
                proof {
                    lemma_pairs_map_update(self.pairs(), j as int, self.pairs()[j as int].1);
                    assert(self.pairs().update(j as int, (self.pairs()[j as int].0, self.pairs()[j as int].1)) =~= self.pairs());
                }
                Some(&self.entries[j].1)
            },
            None => {
                proof {
                    if self.map().contains_key(key@) {
                        lemma_pairs_map_keys(self.pairs(), key@);
                    }
                }
                None
            },
        }
    }
}

/// One normalised snapshot of tracking data. Vector components are of type
/// `N`, blend-shape weights of type `W`; an absent vector means that the source
/// sent no value for it in this frame.
#[derive(Debug, Clone)]
pub struct TrackingFrame<N, W> {
    pub head_rotation: Option<Vector3<N>>,
    pub head_position: Option<Vector3<N>>,
    pub left_eye_rotation: Option<Vector3<N>>,
    pub right_eye_rotation: Option<Vector3<N>>,
    pub blend_shapes: NameMap<W>,
}

impl<N, W> TrackingFrame<N, W> {
    /// A frame with no vectors and no blend shapes.
    pub fn empty() -> (r: TrackingFrame<N, W>)
        ensures
            r.head_rotation is None,
            r.head_position is None,
            r.left_eye_rotation is None,
            r.right_eye_rotation is None,
            r.blend_shapes.wf(),
            r.blend_shapes.map() == Map::<Seq<char>, W>::empty(),
    {
        TrackingFrame {
            head_rotation: None,
            head_position: None,
            left_eye_rotation: None,
            right_eye_rotation: None,
            blend_shapes: NameMap::new(),
        }
    }
}

} // verus!
