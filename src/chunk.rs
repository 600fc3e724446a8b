//! Splits upstream byte buffers into units of at most a given size, keeping
//! their order and contents.

use vstd::prelude::*;

verus! {

/// The unit emitted for `data` when units hold at most `max` bytes.
pub open spec fn first_unit(max: nat, data: Seq<u8>) -> Seq<u8> {
    if data.len() > max {
        data.take(max as int)
    } else {
        data
    }
}

/// What stays behind after the unit for `data` has been emitted.
pub open spec fn rest_after_unit(max: nat, data: Seq<u8>) -> Seq<u8> {
    if data.len() > max {
        data.skip(max as int)
    } else {
        Seq::<u8>::empty()
    }
}

/// All units emitted for one upstream buffer `data`, in order.
pub open spec fn units_of(max: nat, data: Seq<u8>) -> Seq<Seq<u8>>
    decreases data.len(),
{
    if max > 0 && data.len() > max {
        seq![data.take(max as int)] + units_of(max, data.skip(max as int))
    } else {
        seq![data]
    }
}

/// All units emitted for the upstream buffers `items`, in order.
pub open spec fn units_of_all(max: nat, items: Seq<Seq<u8>>) -> Seq<Seq<u8>>
    decreases items.len(),
{
    if items.len() == 0 {
        Seq::empty()
    } else {
        units_of_all(max, items.drop_last()) + units_of(max, items.last())
    }
}

/// The concatenation of byte sequences.
pub open spec fn concat(parts: Seq<Seq<u8>>) -> Seq<u8>
    decreases parts.len(),
{
    if parts.len() == 0 {
        Seq::empty()
    } else {
        concat(parts.drop_last()) + parts.last()
    }
}

/// Concatenation distributes over appending sequences of parts.
pub proof fn lemma_concat_append(a: Seq<Seq<u8>>, b: Seq<Seq<u8>>)
    ensures
        concat(a + b) == concat(a) + concat(b),
    decreases b.len(),
{
    if b.len() == 0 {
        assert(a + b =~= a);
        assert(concat(a) + concat(b) =~= concat(a));
    } else {
        lemma_concat_append(a, b.drop_last());
        assert((a + b).drop_last() =~= a + b.drop_last());
        assert(concat(a) + concat(b) =~= concat(a) + concat(b.drop_last()) + b.last());
    }
}

/// A single part concatenates to itself.
pub proof fn lemma_concat_single(x: Seq<u8>)
    ensures
        concat(seq![x]) == x,
{
    assert(seq![x].drop_last() =~= Seq::<Seq<u8>>::empty());
    assert(concat(Seq::<Seq<u8>>::empty()) =~= Seq::<u8>::empty());
    assert(concat(seq![x]) =~= x);
}

/// The units of one buffer are its first unit followed by the units of
/// what stays behind, if anything does.
pub proof fn lemma_units_of_step(max: nat, data: Seq<u8>)
    requires
        max > 0,
    ensures
        units_of(max, data) == if rest_after_unit(max, data).len() == 0 {
            seq![first_unit(max, data)]
        } else {
            seq![first_unit(max, data)] + units_of(max, rest_after_unit(max, data))
        },
{
}

/// Every unit of one buffer has at most `max` bytes, and the units
/// concatenate back to the buffer.
pub proof fn lemma_units_of(max: nat, data: Seq<u8>)
    requires
        max > 0,
    ensures
        forall|i: int| 0 <= i < units_of(max, data).len() ==> #[trigger] units_of(max, data)[i].len() <= max,
        concat(units_of(max, data)) == data,
    decreases data.len(),
{
    if data.len() > max {
        let rest = data.skip(max as int);
        lemma_units_of(max, rest);
        lemma_concat_append(seq![data.take(max as int)], units_of(max, rest));
        lemma_concat_single(data.take(max as int));
        assert(data.take(max as int) + rest =~= data);
        assert forall|i: int| 0 <= i < units_of(max, data).len() implies #[trigger] units_of(max, data)[i].len() <= max by {
            if i > 0 {
                assert(units_of(max, data)[i] == units_of(max, rest)[i - 1]);
            }
        }
    } else {
        lemma_concat_single(data);
    }
}

/// Chunk-size bound: for any upstream buffers, every unit the splitter
/// emits has at most `max` bytes, and the units concatenate, in order, to
/// the concatenation of the upstream buffers.
pub proof fn lemma_splitter_preserves_bytes(max: nat, items: Seq<Seq<u8>>)
    requires
        max > 0,
    ensures
        forall|i: int| 0 <= i < units_of_all(max, items).len() ==> #[trigger] units_of_all(max, items)[i].len() <= max,
        concat(units_of_all(max, items)) == concat(items),
    decreases items.len(),
{
    if items.len() > 0 {
        let front = items.drop_last();
        lemma_splitter_preserves_bytes(max, front);
        lemma_units_of(max, items.last());
        lemma_concat_append(units_of_all(max, front), units_of(max, items.last()));
        let all = units_of_all(max, items);
        let n = units_of_all(max, front).len();
        assert forall|i: int| 0 <= i < all.len() implies #[trigger] all[i].len() <= max by {
            if i < n {
                assert(all[i] == units_of_all(max, front)[i]);
            } else {
                assert(all[i] == units_of(max, items.last())[i - n]);
            }
        }
    }
}

/// A run of the splitter over one upstream buffer `data`: `split` emits
/// `units[0]` and holds `rests[0]`, each `take_leftover` after it emits
/// `units[i]` from the held `rests[i - 1]` (not empty) and holds
/// `rests[i]`, until nothing is held.  The units emitted are exactly `units_of(max, data)`:
/// each has at most `max` bytes, and they concatenate back to `data`.
pub proof fn lemma_splitter_run(
    max: nat,
    data: Seq<u8>,
    units: Seq<Seq<u8>>,
    rests: Seq<Seq<u8>>,
)
    requires
        max > 0,
        units.len() >= 1,
        rests.len() == units.len(),
        units[0] == first_unit(max, data),
        rests[0] == rest_after_unit(max, data),
        forall|i: int| 0 <= i < units.len() - 1 ==> #[trigger] rests[i].len() > 0,
        forall|i: int|
            0 < i < units.len() ==> #[trigger] units[i] == first_unit(max, rests[i - 1]) && rests[i]
                == rest_after_unit(max, rests[i - 1]),
        rests.last().len() == 0,
    ensures
        units == units_of(max, data),
        forall|i: int| 0 <= i < units.len() ==> #[trigger] units[i].len() <= max,
        concat(units) == data,
    decreases units.len(),
{
    lemma_units_of_step(max, data);
    if units.len() == 1 {
        assert(units =~= seq![first_unit(max, data)]);
    } else {
        let us = units.skip(1);
        let rs = rests.skip(1);
        assert forall|i: int| 0 <= i < us.len() - 1 implies #[trigger] rs[i].len() > 0 by {
            assert(rs[i] == rests[i + 1]);
        }
        assert forall|i: int| 0 < i < us.len() implies #[trigger] us[i] == first_unit(max, rs[i - 1])
            && rs[i] == rest_after_unit(max, rs[i - 1]) by {
            assert(us[i] == units[i + 1]);
            assert(rs[i] == rests[i + 1] && rs[i - 1] == rests[i]);
            assert(units[i + 1] == first_unit(max, rests[(i + 1) - 1]));
        }
        assert(rests[0].len() > 0);
        assert(units[1] == first_unit(max, rests[0]));
        assert(rs.last() == rests.last());
        lemma_splitter_run(max, rests[0], us, rs);
        assert(units =~= seq![first_unit(max, data)] + us);
    }
    lemma_units_of(max, data);
}

/// Copies `src[start..end]` into a new vector.
fn copy_range(src: &[u8], start: usize, end: usize) -> (r: Vec<u8>)
    requires
        start <= end <= src@.len(),
    ensures
        r@ == src@.subrange(start as int, end as int),
{
    let mut r: Vec<u8> = Vec::with_capacity(end - start);
    let mut i: usize = start;
    while i < end
        invariant
            start <= i <= end,
            end <= src@.len(),
            r@ == src@.subrange(start as int, i as int),
        decreases end - i,
    {
        r.push(src[i]);
        i = i + 1;
    }
    r
}

/// The state of a splitter: the unit size limit and the tail of an
/// oversized upstream buffer that has not been emitted yet.
pub struct ChunkSplitter {
    max_chunk_size: usize,
    pending_frame: Option<Vec<u8>>,
}

impl ChunkSplitter {
    /// The largest unit this splitter emits.
    pub closed spec fn max_size(&self) -> nat {
        self.max_chunk_size as nat
    }

    /// Bytes taken from upstream and not emitted yet.
    pub closed spec fn leftover(&self) -> Seq<u8> {
        match self.pending_frame {
            Some(v) => v@,
            None => Seq::empty(),
        }
    }

    /// The limit is positive, and a held tail is never empty.
    pub closed spec fn wf(&self) -> bool {
        &&& self.max_chunk_size > 0
        &&& (self.pending_frame matches Some(v) ==> v@.len() > 0)
    }

    /// A splitter that emits units of at most `max_chunk_size` bytes.
    pub fn new(max_chunk_size: usize) -> (r: Self)
        requires
            max_chunk_size > 0,
        ensures
            r.wf(),
            r.max_size() == max_chunk_size,
            r.leftover() == Seq::<u8>::empty(),
    {
        ChunkSplitter { max_chunk_size, pending_frame: None }
    }

    /// Whether bytes of an earlier upstream buffer still wait to be emitted.
    pub fn has_leftover(&self) -> (r: bool)
        requires
            self.wf(),
        ensures
            r == (self.leftover().len() > 0),
    {
        self.pending_frame.is_some()
    }

    /// Emits the next unit of the held tail, if any, without consulting
    /// upstream.
    pub fn take_leftover(&mut self) -> (r: Option<Vec<u8>>)
        requires
            old(self).wf(),
        ensures
            final(self).wf(),
            final(self).max_size() == old(self).max_size(),
            old(self).leftover().len() == 0 ==> r is None && final(self).leftover() == old(
                self,
            ).leftover(),
            old(self).leftover().len() > 0 ==> r is Some && r->Some_0@ == first_unit(
                old(self).max_size(),
                old(self).leftover(),
            ) && final(self).leftover() == rest_after_unit(
                old(self).max_size(),
                old(self).leftover(),
            ),
    {
        match self.pending_frame.take() {
            None => None,
            Some(frame) => Some(self.split(frame.as_slice())),
        }
    }

    /// Emits the first unit of an upstream buffer and holds the rest.
    pub fn split(&mut self, item: &[u8]) -> (r: Vec<u8>)
        requires
            old(self).wf(),
            old(self).leftover().len() == 0,
        ensures
            final(self).wf(),
            final(self).max_size() == old(self).max_size(),
            r@ == first_unit(old(self).max_size(), item@),
            final(self).leftover() == rest_after_unit(old(self).max_size(), item@),
    {
        let n = item.len();
        if n > self.max_chunk_size {
            self.pending_frame = Some(copy_range(item, self.max_chunk_size, n));
            copy_range(item, 0, self.max_chunk_size)
        } else {
            self.pending_frame = None;
            copy_range(item, 0, n)
        }
    }
}

} // verus!
