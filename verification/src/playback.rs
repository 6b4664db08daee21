use vstd::prelude::*;

verus! {

/// The samples of a left and a right channel, handed out interleaved:
/// left, right, left, right, ...
pub struct StereoSamples<T> {
    left: Vec<T>,
    right: Vec<T>,
    i: usize,
}

/// The `k`-th sample of the interleaving of `left` and `right`.
pub open spec fn interleaved<T>(left: Seq<T>, right: Seq<T>, k: int) -> T {
    if k % 2 == 0 {
        left[k / 2]
    } else {
        right[k / 2]
    }
}

/// All the samples of `left` and `right`, interleaved: left, right, left, right, ...
pub open spec fn interleaving<T>(left: Seq<T>, right: Seq<T>) -> Seq<T> {
    Seq::new(2 * left.len(), |k: int| interleaved(left, right, k))
}

/// The interleaving of two channels of `n` samples holds `2n` samples: the `j`-th
/// sample of the left channel, then the `j`-th of the right, for each `j` in order.
pub proof fn lemma_interleaving<T>(left: Seq<T>, right: Seq<T>)
    requires
        left.len() == right.len(),
    ensures
        interleaving(left, right).len() == 2 * left.len(),
        forall|j: int|
            0 <= j < left.len() ==> #[trigger] interleaving(left, right)[2 * j] == left[j]
                && interleaving(left, right)[2 * j + 1] == right[j],
{
    assert forall|j: int| 0 <= j < left.len() implies #[trigger] interleaving(left, right)[2 * j]
        == left[j] && interleaving(left, right)[2 * j + 1] == right[j] by {
        assert((2 * j) % 2 == 0 && (2 * j) / 2 == j) by (nonlinear_arith);
        assert((2 * j + 1) % 2 == 1 && (2 * j + 1) / 2 == j) by (nonlinear_arith);
    }
}

impl<T: Copy> StereoSamples<T> {
    /// The samples not handed out yet, in the order they will be.
    pub closed spec fn remaining(&self) -> Seq<T> {
        interleaving(self.left@, self.right@).skip(self.i as int)
    }

    /// The samples of the left channel.
    pub closed spec fn left(&self) -> Seq<T> {
        self.left@
    }

    /// The samples of the right channel.
    pub closed spec fn right(&self) -> Seq<T> {
        self.right@
    }

    /// How many samples have been handed out.
    pub closed spec fn position(&self) -> nat {
        self.i as nat
    }

    /// Both channels have the same length and the position is within the samples.
    pub closed spec fn wf(&self) -> bool {
        &&& self.left@.len() == self.right@.len()
        &&& 2 * self.left@.len() <= usize::MAX
        &&& self.i <= 2 * self.left@.len()
    }

    /// Requires the left and right to have the same length
    pub fn new(left: Vec<T>, right: Vec<T>) -> (r: Self)
        requires
            left@.len() == right@.len(),
            2 * left@.len() <= usize::MAX,
        ensures
            r.wf(),
            r.left() == left@,
            r.right() == right@,
            r.position() == 0,
            r.remaining() == interleaving(left@, right@),
    {
        StereoSamples { left, right, i: 0 }
    }

    /// Number of samples not handed out yet.
    pub fn remaining_len(&self) -> (r: usize)
        requires
            self.wf(),
        ensures
            r == 2 * self.left().len() - self.position(),
            r == self.remaining().len(),
    {
        2 * self.left.len() - self.i
    }

    /// The next sample, or `None` once every sample has been handed out.
    pub fn next_sample(&mut self) -> (r: Option<T>)
        requires
            old(self).wf(),
        ensures
            final(self).wf(),
            final(self).left() == old(self).left(),
            final(self).right() == old(self).right(),
            old(self).position() >= 2 * old(self).left().len() ==> {
                &&& r is None
                &&& final(self).position() == old(self).position()
            },
            old(self).position() < 2 * old(self).left().len() ==> {
                &&& r == Some(
                    interleaved(old(self).left(), old(self).right(), old(self).position() as int),
                )
                &&& final(self).position() == old(self).position() + 1
            },
            old(self).remaining().len() == 0 ==> r is None
                && final(self).remaining() == old(self).remaining(),
            old(self).remaining().len() > 0 ==> r == Some(old(self).remaining()[0])
                && final(self).remaining() == old(self).remaining().drop_first(),
    {
        if self.i >= 2 * self.left.len() {
            return None;
        }
        proof {
            let all = interleaving(self.left@, self.right@);
            assert(all.skip(self.i + 1) =~= all.skip(self.i as int).drop_first());
        }
        let ret = if self.i % 2 == 0 {
            Some(self.left[self.i / 2])
        } else {
            Some(self.right[self.i / 2])
        };
        self.i += 1;
        ret
    }
}

} // verus!
