//! Intersections of a ray with bodies, kept in ascending order of the ray
//! parameter `t`, and the rule that picks the visible one.
//!
//! The parameter of each intersection is carried as an order key: an `i64`
//! whose integer order is the order of the parameters, and which is positive
//! exactly when the parameter is. What each intersection is (its body, its
//! ray) is the caller's type `T`.

use vstd::prelude::*;
use vstd::seq_lib::*;

verus! {

broadcast use vstd::seq_lib::group_to_multiset_ensures;

/// The order key of the 64-bit floating-point number with bit pattern `bits`.
///
/// Such numbers are stored as a sign bit and a magnitude, and ordering their
/// magnitudes orders the numbers of one sign. The key keeps the magnitude of
/// a number with the sign bit clear, and maps a number with the sign bit set
/// below every such one, larger magnitudes lower. So, for every number but
/// NaN, the key is positive exactly when the number is above zero (the two
/// zeros map to `0` and `-1`). NaN has no place in this order: its bit
/// patterns fall beyond those of the infinities, and callers leave it out.
pub fn order_key(bits: u64) -> (r: i64)
    ensures
        bits < 0x8000_0000_0000_0000 ==> r == bits as int,
        bits >= 0x8000_0000_0000_0000 ==> r == 0x7fff_ffff_ffff_ffff - bits as int,
{
    if bits < 0x8000_0000_0000_0000 {
        bits as i64
    } else {
        let magnitude: u64 = bits - 0x8000_0000_0000_0000;
        -1 - (magnitude as i64)
    }
}

/// One intersection: the order key of its ray parameter, and its data.
#[derive(Debug)]
pub struct Ranked<T> {
    pub key: i64,
    pub value: T,
}

impl<T> Ranked<T> {
    pub fn new(key: i64, value: T) -> (res: Ranked<T>)
        ensures
            res == (Ranked { key, value }),
    {
        Ranked { key, value }
    }
}

/// Each entry's key is at most the next one's.
pub open spec fn ascending<T>(s: Seq<Ranked<T>>) -> bool {
    forall|i: int| 0 <= i < s.len() - 1 ==> #[trigger] s[i].key <= s[i + 1].key
}

/// Each entry's key is at most every later one's.
pub open spec fn sorted_by_key<T>(s: Seq<Ranked<T>>) -> bool {
    forall|i: int, j: int| 0 <= i <= j < s.len() ==> #[trigger] s[i].key <= #[trigger] s[j].key
}

/// The data of the first entry, in sequence order, whose parameter is
/// positive; `None` when there is none.
pub open spec fn first_positive<T>(s: Seq<Ranked<T>>) -> Option<T>
    decreases s.len(),
{
    if s.len() == 0 {
        None
    } else if s[0].key > 0 {
        Some(s[0].value)
    } else {
        first_positive(s.drop_first())
    }
}

/// The position of the first entry whose parameter is positive, or the
/// length of the sequence when there is none.
pub open spec fn first_positive_index<T>(s: Seq<Ranked<T>>) -> int
    decreases s.len(),
{
    if s.len() == 0 {
        0
    } else if s[0].key > 0 {
        0
    } else {
        1 + first_positive_index(s.drop_first())
    }
}

proof fn lemma_first_positive_index<T>(s: Seq<Ranked<T>>)
    ensures
        0 <= first_positive_index(s) <= s.len(),
        forall|j: int| 0 <= j < first_positive_index(s) ==> #[trigger] s[j].key <= 0,
        first_positive_index(s) < s.len() ==> s[first_positive_index(s)].key > 0
            && first_positive(s) == Some(s[first_positive_index(s)].value),
        first_positive_index(s) == s.len() ==> first_positive(s) is None,
    decreases s.len(),
{
    if s.len() > 0 && s[0].key <= 0 {
        let t = s.drop_first();
        lemma_first_positive_index(t);
        assert forall|j: int| 0 <= j < first_positive_index(s) implies #[trigger] s[j].key <= 0 by {
            if j > 0 {
                assert(s[j] == t[j - 1]);
            }
        }
    }
}

/// Over intersections in ascending order, the hit rule picks the nearest
/// intersection in front of the origin: its parameter is positive and at most
/// every other positive parameter. There is no hit exactly when no parameter
/// is positive.
pub proof fn lemma_hit_is_nearest_in_front<T>(s: Seq<Ranked<T>>)
    requires
        sorted_by_key(s),
    ensures
        first_positive(s) is None <==> forall|i: int| 0 <= i < s.len() ==> #[trigger] s[i].key <= 0,
        first_positive(s) is Some ==> exists|i: int|
            0 <= i < s.len() && s[i].key > 0 && first_positive(s) == Some(s[i].value) && forall|
                j: int,
            | 0 <= j < s.len() && #[trigger] s[j].key > 0 ==> s[i].key <= s[j].key,
{
    lemma_first_positive_index(s);
    let k = first_positive_index(s);
    if k < s.len() {
        assert forall|j: int| 0 <= j < s.len() && #[trigger] s[j].key > 0 implies s[k].key
            <= s[j].key by {
            if j < k {
                assert(s[j].key <= 0);
            }
        }
        assert(s[k].key > 0);
    }
}

/// Intersections in ascending order of their ray parameter.
pub struct VIntersections<T> {
    data: Vec<Ranked<T>>,
}

impl<T> View for VIntersections<T> {
    type V = Seq<Ranked<T>>;

    closed spec fn view(&self) -> Seq<Ranked<T>> {
        self.data@
    }
}

impl<T> VIntersections<T> {
    /// The given intersections, reordered by ascending parameter.
    pub fn new(intersections: Vec<Ranked<T>>) -> (res: Self)
        ensures
            ascending(res@),
            sorted_by_key(res@),
            res@.to_multiset() == intersections@.to_multiset(),
    {
        let ghost all = intersections@;
        let mut rest = intersections;
        let mut out: Vec<Ranked<T>> = Vec::new();
        while rest.len() > 0
            invariant
                sorted_by_key(out@),
                out@.to_multiset().add(rest@.to_multiset()) == all.to_multiset(),
            decreases rest@.len(),
        {
            let ghost before = rest@;
            let item = rest.pop().unwrap();
            assert(before =~= rest@.push(item));
            let mut pos: usize = 0;
            while pos < out.len() && out[pos].key <= item.key
                invariant
                    pos <= out@.len(),
                    forall|k: int| 0 <= k < pos ==> #[trigger] out@[k].key <= item.key,
                decreases out@.len() - pos,
            {
                pos = pos + 1;
            }
            let ghost old_out = out@;
            out.insert(pos, item);
            proof {
                assert(forall|k: int| pos <= k < old_out.len() ==> item.key < #[trigger] old_out[k].key)
                    by {
                    if pos < old_out.len() {
                        assert(item.key < old_out[pos as int].key);
                        assert forall|k: int| pos <= k < old_out.len() implies item.key
                            < #[trigger] old_out[k].key by {
                            assert(old_out[pos as int].key <= old_out[k].key);
                        }
                    }
                }
                assert forall|i: int, j: int| 0 <= i <= j < out@.len() implies #[trigger] out@[i].key
                    <= #[trigger] out@[j].key by {
                    if j < pos {
                        assert(out@[i] == old_out[i]);
                        assert(out@[j] == old_out[j]);
                    } else if j == pos {
                        if i < pos {
                            assert(out@[i] == old_out[i]);
                        }
                    } else if i < pos {
                        assert(out@[i] == old_out[i]);
                        assert(out@[j] == old_out[j - 1]);
                    } else if i == pos {
                        assert(out@[j] == old_out[j - 1]);
                    } else {
                        assert(out@[i] == old_out[i - 1]);
                        assert(out@[j] == old_out[j - 1]);
                    }
                }
                to_multiset_insert(old_out, pos as int, item);
                assert(out@.to_multiset().add(rest@.to_multiset()) =~= all.to_multiset());
            }
        }
        proof {
            assert(out@.to_multiset() =~= all.to_multiset());
        }
        VIntersections { data: out }
    }

    /// The number of intersections.
    pub fn len(&self) -> (r: usize)
        ensures
            r == self@.len(),
    {
        self.data.len()
    }

    /// The data of the intersection at position `index` in ascending order.
    pub fn get(&self, index: usize) -> (r: &T)
        requires
            index < self@.len(),
        ensures
            *r == self@[index as int].value,
    {
        &self.data[index].value
    }

    /// The intersections, in ascending order.
    pub fn into_vec(self) -> (r: Vec<Ranked<T>>)
        ensures
            r@ == self@,
    {
        self.data
    }

    /// The first intersection, in ascending order, whose parameter is
    /// positive: the nearest one in front of the ray's origin.
    pub fn hit(&self) -> (r: Option<&T>)
        ensures
            match r {
                Some(v) => first_positive(self@) == Some(*v),
                None => first_positive(self@) is None,
            },
    {
        let mut i: usize = 0;
        assert(self@.subrange(0, self@.len() as int) =~= self@);
        while i < self.data.len()
            invariant
                i <= self@.len(),
                first_positive(self@) == first_positive(self@.subrange(i as int, self@.len() as int)),
            decreases self@.len() - i,
        {
            let ghost tail = self@.subrange(i as int, self@.len() as int);
            if self.data[i].key > 0 {
                return Some(&self.data[i].value);
            }
            assert(tail.drop_first() =~= self@.subrange(i + 1, self@.len() as int));
            i = i + 1;
        }
        assert(self@.subrange(i as int, self@.len() as int) =~= Seq::<Ranked<T>>::empty());
        None
    }
}

} // verus!
