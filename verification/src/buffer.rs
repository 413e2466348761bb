//! The body buffer: one logical byte stream held as an ordered sequence of
//! owned segments, readable in place and as a sequential stream.

use vstd::prelude::*;
use vstd::seq_lib::lemma_flatten_concat;
use crate::bytes::to_vec;

verus! {

/// The bytes of the first `n` segments, concatenated.
pub open spec fn prefix(segments: Seq<Seq<u8>>, n: int) -> Seq<u8> {
    segments.take(n).flatten()
}

/// Every segment overwritten with `byte`, lengths kept.
pub open spec fn filled(segments: Seq<Seq<u8>>, byte: u8) -> Seq<Seq<u8>> {
    Seq::new(segments.len(), |i: int| Seq::new(segments[i].len(), |j: int| byte))
}

/// `segments` with `data` added at the end; empty data adds nothing.
pub open spec fn appended(segments: Seq<Seq<u8>>, data: Seq<u8>) -> Seq<Seq<u8>> {
    if data.len() == 0 {
        segments
    } else {
        segments.push(data)
    }
}

/// `segments` with `data` added at the front; empty data adds nothing.
pub open spec fn prepended(segments: Seq<Seq<u8>>, data: Seq<u8>) -> Seq<Seq<u8>> {
    if data.len() == 0 {
        segments
    } else {
        seq![data] + segments
    }
}

/// Taking one more segment extends the prefix by that segment.
pub proof fn lemma_prefix_step(segments: Seq<Seq<u8>>, n: int)
    requires
        0 <= n < segments.len(),
    ensures
        prefix(segments, n + 1) == prefix(segments, n) + segments[n],
        prefix(segments, 0) == Seq::<u8>::empty(),
        prefix(segments, segments.len() as int) == segments.flatten(),
{
    assert(segments.take(n + 1) =~= segments.take(n).push(segments[n]));
    segments.take(n).lemma_flatten_push(segments[n]);
    assert(segments.take(0) =~= Seq::<Seq<u8>>::empty());
    assert(segments.take(segments.len() as int) =~= segments);
}

/// The content is the bytes before segment `n`, then that segment, then the rest.
pub proof fn lemma_prefix_split(segments: Seq<Seq<u8>>, n: int)
    requires
        0 <= n < segments.len(),
    ensures
        segments.flatten() == prefix(segments, n) + segments[n] + segments.skip(n + 1).flatten(),
{
    let head = segments.take(n);
    let tail = segments.skip(n + 1);
    assert(segments =~= head.push(segments[n]) + tail);
    lemma_flatten_concat(head.push(segments[n]), tail);
    head.lemma_flatten_push(segments[n]);
}

/// `segments` after each of `chunks` was appended, in order.
pub open spec fn appended_all(segments: Seq<Seq<u8>>, chunks: Seq<Seq<u8>>) -> Seq<Seq<u8>>
    decreases chunks.len(),
{
    if chunks.len() == 0 {
        segments
    } else {
        appended(appended_all(segments, chunks.drop_last()), chunks.last())
    }
}

/// Appending adds the data at the end of the content, and prepending at its
/// front.
pub proof fn lemma_appended(segments: Seq<Seq<u8>>, data: Seq<u8>)
    ensures
        appended(segments, data).flatten() == segments.flatten() + data,
        prepended(segments, data).flatten() == data + segments.flatten(),
{
    if data.len() == 0 {
        assert(segments.flatten() + data =~= segments.flatten());
        assert(data + segments.flatten() =~= segments.flatten());
    } else {
        segments.lemma_flatten_push(data);
        lemma_flatten_concat(seq![data], segments);
        seq![data].lemma_flatten_one_element();
        assert(seq![data].first() == data);
    }
}

/// Whatever is appended to a buffer, chunk after chunk, the content is what
/// it was before, followed by the chunks in the order of the calls. For a
/// buffer that was empty, the content is the chunks concatenated.
pub proof fn lemma_appended_all(segments: Seq<Seq<u8>>, chunks: Seq<Seq<u8>>)
    ensures
        appended_all(segments, chunks).flatten() == segments.flatten() + chunks.flatten(),
        appended_all(Seq::empty(), chunks).flatten() == chunks.flatten(),
    decreases chunks.len(),
{
    let none = Seq::<Seq<u8>>::empty();
    assert(none.flatten() =~= Seq::<u8>::empty());
    if chunks.len() == 0 {
        assert(chunks =~= none);
        assert(segments.flatten() + chunks.flatten() =~= segments.flatten());
    } else {
        let front = chunks.drop_last();
        lemma_appended_all(segments, front);
        lemma_appended_all(none, front);
        lemma_appended(appended_all(segments, front), chunks.last());
        lemma_appended(appended_all(none, front), chunks.last());
        assert(chunks =~= front.push(chunks.last()));
        front.lemma_flatten_push(chunks.last());
        assert(segments.flatten() + front.flatten() + chunks.last() =~= segments.flatten() + (
        front.flatten() + chunks.last()));
    }
    assert(none.flatten() + chunks.flatten() =~= chunks.flatten());
}

/// What is written through the view of one segment is in the content: the
/// content is then the bytes before that segment, the bytes written, and the
/// bytes after it. Writing one byte changes that byte of the content and no
/// other.
pub proof fn lemma_write_through(segments: Seq<Seq<u8>>, index: int, written: Seq<u8>)
    requires
        0 <= index < segments.len(),
    ensures
        segments.update(index, written).flatten() == prefix(segments, index) + written
            + segments.skip(index + 1).flatten(),
        forall|offset: int, byte: u8|
            0 <= offset < segments[index].len() && written == segments[index].update(offset, byte)
                ==> segments.update(index, written).flatten() == segments.flatten().update(
                prefix(segments, index).len() + offset,
                byte,
            ),
{
    let after = segments.update(index, written);
    lemma_prefix_split(after, index);
    lemma_prefix_split(segments, index);
    assert(after.take(index) =~= segments.take(index));
    assert(after.skip(index + 1) =~= segments.skip(index + 1));
    assert forall|offset: int, byte: u8|
        0 <= offset < segments[index].len() && written == segments[index].update(
            offset,
            byte,
        ) implies after.flatten() == segments.flatten().update(
        prefix(segments, index).len() + offset,
        byte,
    ) by {
        assert(after.flatten() =~= segments.flatten().update(
            prefix(segments, index).len() + offset,
            byte,
        ));
    }
}

/// An appendable byte buffer made of owned segments.
pub struct ByteBuffer {
    segments: Vec<Vec<u8>>,
}

impl View for ByteBuffer {
    type V = Seq<Seq<u8>>;

    closed spec fn view(&self) -> Seq<Seq<u8>> {
        Seq::new(self.segments@.len(), |i: int| self.segments@[i]@)
    }
}

impl ByteBuffer {
    /// The logical content: the segments concatenated in order.
    pub open spec fn content(&self) -> Seq<u8> {
        self@.flatten()
    }

    /// An empty buffer.
    pub fn new() -> (buffer: ByteBuffer)
        ensures
            buffer@ == Seq::<Seq<u8>>::empty(),
            buffer.content() == Seq::<u8>::empty(),
    {
        let buffer = ByteBuffer { segments: Vec::new() };
        assert(buffer@ =~= Seq::<Seq<u8>>::empty());
        buffer
    }

    /// The number of segments.
    pub fn slices_count(&self) -> (count: usize)
        ensures
            count == self@.len(),
    {
        self.segments.len()
    }

    /// A fresh owned snapshot of the whole content; the buffer is not changed.
    pub fn copy(&self) -> (snapshot: Vec<u8>)
        ensures
            snapshot@ == self.content(),
    {
        let mut snapshot: Vec<u8> = Vec::new();
        let mut i: usize = 0;
        proof {
            assert(self@.take(0) =~= Seq::<Seq<u8>>::empty());
        }
        while i < self.segments.len()
            invariant
                i <= self.segments@.len(),
                self@.len() == self.segments@.len(),
                snapshot@ == prefix(self@, i as int),
            decreases self.segments@.len() - i,
        {
            let ghost before = snapshot@;
            snapshot.extend_from_slice(self.segments[i].as_slice());
            proof {
                lemma_prefix_step(self@, i as int);
                assert(snapshot@ =~= before + self@[i as int]);
            }
            i += 1;
        }
        proof {
            assert(self@.take(self@.len() as int) =~= self@);
        }
        snapshot
    }

    /// A mutable view of segment `index`, over the buffer's own storage:
    /// what is written through it is the buffer's content afterwards.
    /// `None` when there is no such segment.
    pub fn slice_mut(&mut self, index: usize) -> (slice: Option<&mut [u8]>)
        ensures
            index >= old(self)@.len() ==> slice.is_none() && final(self)@ == old(self)@,
            index < old(self)@.len() ==> slice.is_some() && slice.unwrap()@ == old(self)@[index as int]
                && final(self)@ == old(self)@.update(index as int, final(slice.unwrap())@),
    {
        if index >= self.segments.len() {
            return None;
        }
        Some(self.segments[index].as_mut_slice())
    }

    /// Mutable views of all segments, in order, over the buffer's own
    /// storage: together they cover the whole content, and what is written
    /// through them is the buffer's content afterwards.
    pub fn slices(&mut self) -> (views: Vec<&mut [u8]>)
        ensures
            views@.len() == old(self)@.len(),
            final(self)@.len() == old(self)@.len(),
            forall|i: int| #![trigger views@[i]] 0 <= i < views@.len() ==> views@[i]@ == old(self)@[i],
            forall|i: int|
                #![trigger views@[i]]
                0 <= i < views@.len() ==> final(self)@[i] == final(views@[i])@,
    {
        let mut views: Vec<&mut [u8]> = Vec::new();
        let all = self.segments.as_mut_slice();
        collect_slices(all, &mut views);
        views
    }

    /// Overwrites every byte of the content with `byte`, in place: no
    /// segment is added, removed or resized.
    pub fn fill(&mut self, byte: u8)
        ensures
            final(self)@ == filled(old(self)@, byte),
    {
        let mut i: usize = 0;
        while i < self.segments.len()
            invariant
                i <= self.segments@.len(),
                self@.len() == old(self)@.len(),
                self.segments@.len() == old(self)@.len(),
                forall|k: int| 0 <= k < i ==> self@[k] == filled(old(self)@, byte)[k],
                forall|k: int| i <= k < self@.len() ==> self@[k] == old(self)@[k],
            decreases self.segments@.len() - i,
        {
            let mut j: usize = 0;
            while j < self.segments[i].len()
                invariant
                    i < self.segments@.len(),
                    self@.len() == old(self)@.len(),
                    self.segments@.len() == old(self)@.len(),
                    j <= self@[i as int].len(),
                    self@[i as int].len() == old(self)@[i as int].len(),
                    forall|k: int| 0 <= k < i ==> self@[k] == filled(old(self)@, byte)[k],
                    forall|k: int| i < k < self@.len() ==> self@[k] == old(self)@[k],
                    forall|m: int| 0 <= m < j ==> self@[i as int][m] == byte,
                decreases self@[i as int].len() - j,
            {
                let ghost prev = self@;
                self.segments[i][j] = byte;
                proof {
                    assert(self@[i as int] =~= prev[i as int].update(j as int, byte));
                    assert forall|k: int| 0 <= k < i implies self@[k] == filled(
                        old(self)@,
                        byte,
                    )[k] by {
                        assert(self@[k] == prev[k]);
                    }
                    assert forall|k: int| i < k < self@.len() implies self@[k] == old(self)@[k] by {
                        assert(self@[k] == prev[k]);
                    }
                }
                j += 1;
            }
            proof {
                assert(self@[i as int] =~= filled(old(self)@, byte)[i as int]);
            }
            i += 1;
        }
        assert(self@ =~= filled(old(self)@, byte));
    }

    /// A sequential reader over the content, positioned at its first byte.
    pub fn reader(&self) -> (reader: BufferReader<'_>)
        ensures
            reader.source() == self@,
            reader.consumed() == 0,
    {
        proof {
            assert(self@.take(0) =~= Seq::<Seq<u8>>::empty());
        }
        BufferReader { buffer: self, slice_index: 0, slice_offset: 0 }
    }

    /// Adds a fresh copy of `data` as the last segment. Empty data changes nothing.
    pub fn append(&mut self, data: &[u8])
        ensures
            final(self)@ == appended(old(self)@, data@),
            final(self).content() == old(self).content() + data@,
    {
        if data.len() == 0 {
            assert(old(self).content() + data@ =~= old(self).content());
            return;
        }
        let ghost before = self@;
        self.segments.push(to_vec(data));
        proof {
            assert(self@ =~= before.push(data@));
            before.lemma_flatten_push(data@);
        }
    }

    /// Adds a fresh copy of `data` as the first segment. Empty data changes nothing.
    pub fn prepend(&mut self, data: &[u8])
        ensures
            final(self)@ == prepended(old(self)@, data@),
            final(self).content() == data@ + old(self).content(),
    {
        if data.len() == 0 {
            assert(data@ + old(self).content() =~= old(self).content());
            return;
        }
        let ghost before = self@;
        self.segments.insert(0, to_vec(data));
        proof {
            assert(self@ =~= seq![data@] + before);
            lemma_flatten_concat(seq![data@], before);
            seq![data@].lemma_flatten_one_element();
            assert(seq![data@].first() == data@);
        }
    }

    /// Discards every segment and installs a fresh copy of `data` as the content.
    pub fn replace(&mut self, data: &[u8])
        ensures
            final(self)@ == appended(Seq::<Seq<u8>>::empty(), data@),
            final(self).content() == data@,
    {
        self.segments.clear();
        assert(self@ =~= Seq::<Seq<u8>>::empty());
        self.append(data);
        assert(Seq::<u8>::empty() + data@ =~= data@);
    }
}

/// Pushes a mutable view of each element of `segments`, in order, onto `views`.
fn collect_slices<'a>(segments: &'a mut [Vec<u8>], views: &mut Vec<&'a mut [u8]>)
    ensures
        final(views)@.len() == old(views)@.len() + old(segments)@.len(),
        final(segments)@.len() == old(segments)@.len(),
        forall|i: int| 0 <= i < old(views)@.len() ==> final(views)@[i] == old(views)@[i],
        forall|k: int|
            #![trigger final(views)@[k]]
            old(views)@.len() <= k < final(views)@.len() ==> final(views)@[k]@ == old(segments)@[k
                - old(views)@.len()]@,
        forall|k: int|
            #![trigger final(views)@[k]]
            old(views)@.len() <= k < final(views)@.len() ==> final(final(views)@[k])@ == final(
                segments
            )@[k - old(views)@.len()]@,
    decreases old(segments)@.len(),
{
    if segments.len() == 0 {
        return;
    }
    let (head, tail) = segments.split_at_mut(1);
    match head.first_mut() {
        Some(first) => {
            views.push(first.as_mut_slice());
        },
        None => {},
    }
    collect_slices(tail, views);
}

/// A sequential reader over a buffer's content. It never blocks, and reports
/// the end of the data by reading nothing.
pub struct BufferReader<'a> {
    buffer: &'a ByteBuffer,
    slice_index: usize,
    slice_offset: usize,
}

impl<'a> BufferReader<'a> {
    /// The segments that are read.
    pub closed spec fn source(&self) -> Seq<Seq<u8>> {
        self.buffer@
    }

    /// The position lies inside the buffer.
    #[verifier::type_invariant]
    closed spec fn wf(&self) -> bool {
        &&& self.slice_index <= self.buffer@.len()
        &&& self.slice_index < self.buffer@.len() ==> self.slice_offset
            <= self.buffer@[self.slice_index as int].len()
        &&& self.slice_index == self.buffer@.len() ==> self.slice_offset == 0
    }

    /// How many bytes of the content have been read so far.
    pub closed spec fn consumed(&self) -> int {
        prefix(self.buffer@, self.slice_index as int).len() + self.slice_offset
    }

    /// The bytes not read yet.
    pub open spec fn remaining(&self) -> Seq<u8> {
        self.source().flatten().skip(self.consumed())
    }

    /// A reader whose position lies inside the buffer has not read more
    /// than the content.
    proof fn lemma_consumed_in_range(&self)
        requires
            self.wf(),
        ensures
            0 <= self.consumed() <= self.source().flatten().len(),
    {
        let segments = self.buffer@;
        if self.slice_index < segments.len() {
            lemma_prefix_split(segments, self.slice_index as int);
        } else {
            assert(segments.take(segments.len() as int) =~= segments);
        }
    }

    /// Reads the next bytes of the content into the front of `out`: as many
    /// as `out` holds, or all that are left if that is fewer. The rest of
    /// `out` is not touched. Returns how many bytes were read; 0 when `out`
    /// is empty or the content is exhausted.
    pub fn read(&mut self, out: &mut [u8]) -> (count: usize)
        ensures
            final(self).source() == old(self).source(),
            0 <= old(self).consumed() <= old(self).source().flatten().len(),
            count == if old(out)@.len() <= old(self).remaining().len() {
                old(out)@.len()
            } else {
                old(self).remaining().len()
            },
            final(self).consumed() == old(self).consumed() + count,
            final(out)@ == old(self).remaining().take(count as int) + old(out)@.skip(count as int),
    {
        let ghost segments = self.buffer@;
        let ghost content = segments.flatten();
        let ghost start = self.consumed();
        let mut total: usize = 0;
        proof {
            use_type_invariant(&*self);
            self.lemma_consumed_in_range();
            assert(out@ =~= content.skip(start).take(0) + out@.skip(0));
        }
        while total < out.len() && self.slice_index < self.buffer.segments.len()
            invariant
                self.wf(),
                self.buffer@ == segments,
                self.buffer@.len() == self.buffer.segments@.len(),
                content == segments.flatten(),
                start == old(self).consumed(),
                old(self).source() == segments,
                0 <= start <= content.len(),
                total <= out@.len(),
                out@.len() == old(out)@.len(),
                self.consumed() == start + total,
                self.consumed() <= content.len(),
                out@ == content.skip(start).take(total as int) + old(out)@.skip(total as int),
            decreases content.len() - self.consumed(), segments.len() - self.slice_index,
        {
            let segment = &self.buffer.segments[self.slice_index];
            proof {
                lemma_prefix_split(segments, self.slice_index as int);
                assert(segment@ == segments[self.slice_index as int]);
            }
            if self.slice_offset >= segment.len() {
                proof {
                    lemma_prefix_step(segments, self.slice_index as int);
                }
                self.slice_offset = 0;
                self.slice_index += 1;
            } else {
                let byte: u8 = segment[self.slice_offset];
                proof {
                    let at: int = self.consumed();
                    assert(content[at] == byte);
                    assert(content.skip(start)[total as int] == byte);
                }
                out[total] = byte;
                self.slice_offset += 1;
                total += 1;
                proof {
                    assert(out@ =~= content.skip(start).take(total as int) + old(out)@.skip(
                        total as int,
                    ));
                }
            }
        }
        proof {
            if self.slice_index >= self.buffer.segments.len() {
                assert(segments.take(segments.len() as int) =~= segments);
            }
        }
        total
    }
}

} // verus!
