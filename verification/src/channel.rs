//! Generic channel for storing per-point or per-vertex attribute data.
//!
//! A channel is a flat array of values grouped into elements of a fixed
//! width: element `i` is the slice of `width` values starting at
//! `i * width`.

use vstd::prelude::*;
use vstd::arithmetic::div_mod::{lemma_fundamental_div_mod, lemma_mod_division_less_than_divisor};
use vstd::slice::slice_subrange;

verus! {

/// A typed channel storing attribute data: `width` values per element.
#[derive(Debug, Clone)]
pub struct Channel<T> {
    /// Raw data storage; its length is a multiple of `width`.
    pub data: Vec<T>,
    /// Number of values per element; at least one.
    pub width: usize,
}

impl<T: Copy> Channel<T> {
    /// The channel's shape is coherent: a positive width that divides the
    /// data length.
    pub open spec fn wf(self) -> bool {
        self.width >= 1 && self.data@.len() as int % self.width as int == 0
    }

    /// Number of elements held.
    pub open spec fn spec_len(self) -> int {
        self.data@.len() as int / self.width as int
    }

    /// The values of element `i`.
    pub open spec fn spec_element(self, i: int) -> Seq<T> {
        self.data@.subrange(i * self.width as int, i * self.width as int + self.width as int)
    }

    /// Creates a new channel with the given data and width.
    pub fn new(data: Vec<T>, width: usize) -> (r: Self)
        requires
            width >= 1,
            data@.len() as int % width as int == 0,
        ensures
            r == (Channel { data, width }),
            r.wf(),
    {
        Channel { data, width }
    }

    /// Creates an empty channel with the given width.
    pub fn with_width(width: usize) -> (r: Self)
        requires
            width >= 1,
        ensures
            r.data@ == Seq::<T>::empty(),
            r.width == width,
            r.wf(),
    {
        Channel { data: Vec::new(), width }
    }

    /// Returns the number of elements in the channel.
    pub fn len(&self) -> (r: usize)
        requires
            self.wf(),
        ensures
            r == self.spec_len(),
    {
        self.data.len() / self.width
    }

    /// Returns true if the channel is empty.
    pub fn is_empty(&self) -> (r: bool)
        ensures
            r == (self.data@.len() == 0),
    {
        self.data.is_empty()
    }

    /// Returns the width, the number of values per element.
    pub fn width(&self) -> (r: usize)
        ensures
            r == self.width,
    {
        self.width
    }

    /// Returns a reference to the raw data.
    pub fn data(&self) -> (r: &[T])
        ensures
            r@ == self.data@,
    {
        self.data.as_slice()
    }

    /// Gets the slice of values for the element at the given index.
    pub fn get(&self, index: usize) -> (r: Option<&[T]>)
        requires
            self.wf(),
        ensures
            index < self.spec_len() ==> (r matches Some(s) && s@ == self.spec_element(
                index as int)),
            index >= self.spec_len() ==> r is None,
    {
        if index >= self.len() {
            return None;
        }
        let dlen = self.data.len();
        proof {
            lemma_element_range(dlen as int, self.width as int, index as int);
        }
        let start = index * self.width;
        Some(slice_subrange(self.data.as_slice(), start, start + self.width))
    }

    /// Appends one element to the channel.
    pub fn push(&mut self, values: &[T])
        requires
            old(self).wf(),
            values@.len() == old(self).width,
            old(self).data@.len() + old(self).width <= usize::MAX,
        ensures
            final(self).data@ == old(self).data@ + values@,
            final(self).width == old(self).width,
            final(self).wf(),
            final(self).spec_len() == old(self).spec_len() + 1,
    {
        let mut j: usize = 0;
        while j < values.len()
            invariant
                j <= values@.len(),
                values@.len() == self.width,
                self.width == old(self).width,
                self.data@ == old(self).data@ + values@.subrange(0, j as int),
                old(self).data@.len() + old(self).width <= usize::MAX,
            decreases values@.len() - j,
        {
            let v: T = *vstd::slice::slice_index_get(values, j);
            self.data.push(v);
            proof {
                assert(old(self).data@ + values@.subrange(0, j + 1 as int)
                    =~= (old(self).data@ + values@.subrange(0, j as int)).push(v));
            }
            j = j + 1;
        }
        proof {
            assert(values@.subrange(0, values@.len() as int) =~= values@);
            lemma_push_len(old(self).data@.len() as int, self.width as int);
        }
    }

    /// Reserves capacity for the given number of additional elements.
    pub fn reserve(&mut self, additional: usize)
        requires
            additional * old(self).width <= usize::MAX,
        ensures
            final(self).data@ == old(self).data@,
            final(self).width == old(self).width,
    {
        self.data.reserve(additional * self.width);
    }

    /// Clears the channel, keeping its width.
    pub fn clear(&mut self)
        requires
            old(self).wf(),
        ensures
            final(self).data@ == Seq::<T>::empty(),
            final(self).width == old(self).width,
            final(self).wf(),
    {
        self.data.clear();
        proof {
            vstd::arithmetic::div_mod::lemma_small_mod(0nat, self.width as nat);
        }
    }

    /// Consumes the channel and returns the underlying data.
    pub fn into_data(self) -> (r: Vec<T>)
        ensures
            r@ == self.data@,
    {
        self.data
    }

    /// Returns a cursor over the channel's elements.
    pub fn into_iter(&self) -> (r: ChannelIter<'_, T>)
        ensures
            r.channel == self,
            r.index == 0,
    {
        ChannelIter { channel: self, index: 0 }
    }
}

impl<T: Copy + Default> Channel<T> {
    /// Creates a channel of `len` elements, each filled with the default
    /// value; every stored value equals every other.
    pub fn with_size(len: usize, width: usize) -> (r: Self)
        requires
            width >= 1,
            len * width <= usize::MAX,
        ensures
            r.width == width,
            r.wf(),
            r.spec_len() == len,
            forall|i: int, j: int|
                0 <= i < r.data@.len() && 0 <= j < r.data@.len() ==> r.data@[i] == r.data@[j],
    {
        let d: T = Default::default();
        let total = len * width;
        let mut data: Vec<T> = Vec::new();
        let mut k: usize = 0;
        while k < total
            invariant
                k <= total,
                data@.len() == k,
                forall|i: int| 0 <= i < k ==> data@[i] == d,
            decreases total - k,
        {
            data.push(d);
            k = k + 1;
        }
        proof {
            lemma_mul_div_exact(len as int, width as int);
        }
        Channel { data, width }
    }
}

/// A cursor over a channel's elements.
pub struct ChannelIter<'a, T> {
    /// The channel walked over.
    pub channel: &'a Channel<T>,
    /// The next element to hand out.
    pub index: usize,
}

impl<'a, T: Copy> ChannelIter<'a, T> {
    /// Returns the next element, or `None` past the end.
    pub fn next(&mut self) -> (r: Option<&'a [T]>)
        requires
            old(self).channel.wf(),
        ensures
            final(self).channel == old(self).channel,
            old(self).index < old(self).channel.spec_len() ==> {
                &&& r matches Some(s) && s@ == old(self).channel.spec_element(
                    old(self).index as int)
                &&& final(self).index == old(self).index + 1
            },
            old(self).index >= old(self).channel.spec_len() ==> r is None,
    {
        let r = self.channel.get(self.index);
        if self.index < self.channel.len() {
            self.index = self.index + 1;
        }
        r
    }

    /// Returns how many elements are left.
    pub fn size_hint(&self) -> (r: (usize, Option<usize>))
        requires
            self.channel.wf(),
        ensures
            ({
                let remaining = if self.index < self.channel.spec_len() {
                    self.channel.spec_len() - self.index
                } else {
                    0int
                };
                r.0 == remaining && (r.1 matches Some(h) && h == remaining)
            }),
    {
        let len = self.channel.len();
        let remaining = if self.index < len {
            len - self.index
        } else {
            0
        };
        (remaining, Some(remaining))
    }
}

proof fn lemma_element_range(dlen: int, w: int, i: int)
    requires
        w >= 1,
        dlen % w == 0,
        0 <= i < dlen / w,
    ensures
        0 <= i * w,
        i * w + w <= dlen,
{
    lemma_fundamental_div_mod(dlen, w);
    let q = dlen / w;
    assert(dlen == w * q);
    assert(i * w >= 0) by (nonlinear_arith)
        requires i >= 0 && w >= 0;
    assert((i + 1) * w <= q * w) by (nonlinear_arith)
        requires i + 1 <= q && w >= 0;
    assert((i + 1) * w == i * w + w) by (nonlinear_arith);
    assert(q * w == w * q) by (nonlinear_arith);
}

proof fn lemma_push_len(dlen: int, w: int)
    requires
        w >= 1,
        dlen % w == 0,
    ensures
        (dlen + w) % w == 0,
        (dlen + w) / w == dlen / w + 1,
{
    lemma_fundamental_div_mod(dlen, w);
    let q = dlen / w;
    assert(dlen + w == (q + 1) * w + 0) by (nonlinear_arith)
        requires dlen == w * q;
    vstd::arithmetic::div_mod::lemma_fundamental_div_mod_converse_div(dlen + w, w, q + 1, 0);
    vstd::arithmetic::div_mod::lemma_fundamental_div_mod_converse_mod(dlen + w, w, q + 1, 0);
}

proof fn lemma_mul_div_exact(len: int, w: int)
    requires
        w >= 1,
        0 <= len,
    ensures
        (len * w) % w == 0,
        (len * w) / w == len,
    decreases len,
{
    assert(len * w == len * w + 0);
    assert(len * w == w * len) by (nonlinear_arith);
    vstd::arithmetic::div_mod::lemma_fundamental_div_mod_converse_div(len * w, w, len, 0);
    vstd::arithmetic::div_mod::lemma_fundamental_div_mod_converse_mod(len * w, w, len, 0);
}

} // verus!
