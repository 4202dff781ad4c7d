//! Multipart payloads: a list of parts sent as one raw byte range whose part
//! sizes travel in the preceding envelope.
use vstd::prelude::*;
use crate::codec::{Encode, EncodingFormat};
use crate::wire::{push_all, u32_limit};

verus! {

broadcast use vstd::seq_lib::group_seq_properties;

/// Sum of the sizes.
pub open spec fn sum_sizes(sizes: Seq<u32>) -> int
    decreases sizes.len(),
{
    if sizes.len() == 0 {
        0
    } else {
        sum_sizes(sizes.drop_last()) + sizes.last()
    }
}

/// Sum of the first `i` sizes: where part `i` starts.
pub open spec fn offset_of(sizes: Seq<u32>, i: int) -> int {
    sum_sizes(sizes.subrange(0, i))
}

proof fn lemma_offset_step(sizes: Seq<u32>, i: int)
    requires
        0 <= i < sizes.len(),
    ensures
        offset_of(sizes, i + 1) == offset_of(sizes, i) + sizes[i],
{
    assert(sizes.subrange(0, i + 1).drop_last() =~= sizes.subrange(0, i));
}

proof fn lemma_offset_whole(sizes: Seq<u32>)
    ensures
        offset_of(sizes, sizes.len() as int) == sum_sizes(sizes),
{
    assert(sizes.subrange(0, sizes.len() as int) =~= sizes);
}

proof fn lemma_offset_monotone(sizes: Seq<u32>, i: int, j: int)
    requires
        0 <= i <= j <= sizes.len(),
    ensures
        0 <= offset_of(sizes, i) <= offset_of(sizes, j),
    decreases j - i,
{
    if i < j {
        lemma_offset_monotone(sizes, i, j - 1);
        lemma_offset_step(sizes, j - 1);
    } else {
        lemma_sum_nonneg(sizes.subrange(0, i));
    }
}

proof fn lemma_sum_nonneg(sizes: Seq<u32>)
    ensures
        sum_sizes(sizes) >= 0,
    decreases sizes.len(),
{
    if sizes.len() > 0 {
        lemma_sum_nonneg(sizes.drop_last());
    }
}

/// Multipart data to be sent: the parts in order.
#[derive(Debug)]
pub struct MultipartSendable {
    parts: Vec<Vec<u8>>,
}

impl View for MultipartSendable {
    type V = Seq<Seq<u8>>;

    closed spec fn view(&self) -> Seq<Seq<u8>> {
        self.parts@.map_values(|p: Vec<u8>| p@)
    }
}

impl MultipartSendable {
    /// An empty multipart with room for `capacity` parts.
    pub fn with_capacity(capacity: usize) -> (r: Self)
        ensures
            r@ == Seq::<Seq<u8>>::empty(),
    {
        let r = MultipartSendable { parts: Vec::with_capacity(capacity) };
        assert(r@ =~= Seq::<Seq<u8>>::empty());
        r
    }

    /// A multipart made of `parts`, in order.
    pub fn from_parts(parts: Vec<Vec<u8>>) -> (r: Self)
        ensures
            r@ == parts@.map_values(|p: Vec<u8>| p@),
    {
        MultipartSendable { parts }
    }

    /// Pushes a part at the end.
    pub fn push(&mut self, part: Vec<u8>)
        ensures
            final(self)@ == old(self)@.push(part@),
    {
        self.parts.push(part);
        assert(final(self)@ =~= old(self)@.push(part@));
    }

    /// Pushes a part at the end; the same as `push`, for building.
    pub fn with_part(self, part: Vec<u8>) -> (r: Self)
        ensures
            r@ == self@.push(part@),
    {
        let mut r = self;
        r.push(part);
        r
    }

    /// Encodes `encodable` and pushes the bytes as a part; on an encoding
    /// error nothing is pushed.
    pub fn push_encodable<E: Encode<Format>, Format: EncodingFormat>(
        &mut self,
        encodable: &E,
    ) -> (r: Result<(), E::Error>)
        ensures
            r is Ok ==> final(self)@.len() == old(self)@.len() + 1 && final(self)@.drop_last()
                == old(self)@,
            r is Err ==> final(self)@ == old(self)@,
    {
        match encodable.encode() {
            Ok(bytes) => {
                self.push(bytes);
                Ok(())
            },
            Err(e) => Err(e),
        }
    }

    /// Encodes `encodable` and pushes the bytes as a part; the same as
    /// `push_encodable`, for building.
    pub fn with_encodable<E: Encode<Format>, Format: EncodingFormat>(self, encodable: &E) -> (r:
        Result<Self, E::Error>)
        ensures
            r is Ok ==> (r->Ok_0)@.len() == self@.len() + 1 && (r->Ok_0)@.drop_last() == self@,
    {
        let mut r = self;
        match r.push_encodable(encodable) {
            Ok(()) => Ok(r),
            Err(e) => Err(e),
        }
    }

    /// Number of parts.
    pub fn part_count(&self) -> (r: usize)
        ensures
            r == self@.len(),
    {
        self.parts.len()
    }

    /// The part at `index`.
    pub fn part(&self, index: usize) -> (r: &[u8])
        requires
            index < self@.len(),
        ensures
            r@ == self@[index as int],
    {
        self.parts[index].as_slice()
    }

    /// The size of each part, or `None` when one is too long for a `u32`.
    pub fn part_sizes(&self) -> (r: Option<Vec<u32>>)
        ensures
            r is Some <==> forall|i: int| 0 <= i < self@.len() ==> #[trigger] self@[i].len()
                <= u32_limit(),
            r is Some ==> r.unwrap()@.len() == self@.len() && forall|i: int|
                0 <= i < self@.len() ==> #[trigger] r.unwrap()@[i] == self@[i].len(),
    {
        let mut sizes: Vec<u32> = Vec::with_capacity(self.parts.len());
        let mut i: usize = 0;
        while i < self.parts.len()
            invariant
                0 <= i <= self.parts@.len(),
                self@.len() == self.parts@.len(),
                sizes@.len() == i,
                forall|j: int| 0 <= j < i ==> #[trigger] sizes@[j] == self@[j].len(),
                forall|j: int| 0 <= j < i ==> #[trigger] self@[j].len() <= u32_limit(),
            decreases self.parts@.len() - i,
        {
            let n = self.parts[i].len();
            assert(self@[i as int] == self.parts@[i as int]@);
            if n > 0xffff_ffffusize {
                return None;
            }
            sizes.push(n as u32);
            i = i + 1;
        }
        Some(sizes)
    }

    /// All parts, one after another.
    pub fn concatenated(&self) -> (r: Vec<u8>)
        ensures
            r@ == self@.flatten(),
    {
        let mut out: Vec<u8> = Vec::new();
        let mut i: usize = 0;
        while i < self.parts.len()
            invariant
                0 <= i <= self.parts@.len(),
                self@.len() == self.parts@.len(),
                out@ == self@.subrange(0, i as int).flatten(),
            decreases self.parts@.len() - i,
        {
            push_all(&mut out, self.parts[i].as_slice());
            proof {
                self@.subrange(0, i as int).lemma_flatten_push(self@[i as int]);
                assert(self@.subrange(0, i as int).push(self@[i as int]) =~= self@.subrange(
                    0,
                    i + 1,
                ));
            }
            i = i + 1;
        }
        assert(self@.subrange(0, self@.len() as int) =~= self@);
        out
    }
}

/// Multipart data received from a stream: one buffer and the sizes of the
/// parts laid out in it, in order.
#[derive(Debug)]
pub struct MultipartReceived {
    buffer: Vec<u8>,
    part_sizes: Vec<u32>,
    offsets: Vec<usize>,
}

impl MultipartReceived {
    #[verifier::type_invariant]
    spec fn layout(&self) -> bool {
        &&& self.offsets@.len() == self.part_sizes@.len() + 1
        &&& forall|i: int|
            0 <= i <= self.part_sizes@.len() ==> #[trigger] self.offsets@[i] == offset_of(
                self.part_sizes@,
                i,
            )
        &&& self.buffer@.len() == sum_sizes(self.part_sizes@)
    }

    /// The whole buffer.
    pub closed spec fn bytes(&self) -> Seq<u8> {
        self.buffer@
    }

    /// Sizes of the parts.
    pub closed spec fn sizes(&self) -> Seq<u32> {
        self.part_sizes@
    }

    /// The part at `i`.
    pub open spec fn part_spec(&self, i: int) -> Seq<u8> {
        self.bytes().subrange(offset_of(self.sizes(), i), offset_of(self.sizes(), i + 1))
    }

    /// Size of the buffer that parts of these sizes fill, or `None` when the
    /// sum does not fit a `usize`.
    pub fn total_size(part_sizes: &[u32]) -> (r: Option<usize>)
        ensures
            r is Some <==> sum_sizes(part_sizes@) <= usize::MAX,
            r is Some ==> r.unwrap() == sum_sizes(part_sizes@),
    {
        let mut total: usize = 0;
        let mut i: usize = 0;
        while i < part_sizes.len()
            invariant
                0 <= i <= part_sizes@.len(),
                total == offset_of(part_sizes@, i as int),
            decreases part_sizes@.len() - i,
        {
            proof {
                lemma_offset_step(part_sizes@, i as int);
            }
            let n = part_sizes[i] as usize;
            if total > usize::MAX - n {
                proof {
                    lemma_offset_monotone(part_sizes@, i + 1, part_sizes@.len() as int);
                    lemma_offset_whole(part_sizes@);
                }
                return None;
            }
            total = total + n;
            i = i + 1;
        }
        proof {
            lemma_offset_whole(part_sizes@);
        }
        Some(total)
    }

    /// Lays parts of the given sizes out in `buffer`; `None` when the buffer's
    /// length is not the sum of the sizes.
    pub fn from_buffer(buffer: Vec<u8>, part_sizes: &[u32]) -> (r: Option<MultipartReceived>)
        ensures
            r is Some <==> buffer@.len() == sum_sizes(part_sizes@),
            r is Some ==> r.unwrap().bytes() == buffer@ && r.unwrap().sizes() == part_sizes@,
    {
        let mut offsets: Vec<usize> = Vec::new();
        offsets.push(0);
        let mut total: usize = 0;
        let mut i: usize = 0;
        proof {
            assert(part_sizes@.subrange(0, 0).len() == 0);
        }
        while i < part_sizes.len()
            invariant
                0 <= i <= part_sizes@.len(),
                total == offset_of(part_sizes@, i as int),
                offsets@.len() == i + 1,
                forall|j: int| 0 <= j <= i ==> #[trigger] offsets@[j] == offset_of(part_sizes@, j),
            decreases part_sizes@.len() - i,
        {
            proof {
                lemma_offset_step(part_sizes@, i as int);
            }
            let n = part_sizes[i] as usize;
            if total > buffer.len() || buffer.len() - total < n {
                proof {
                    lemma_offset_monotone(part_sizes@, i + 1, part_sizes@.len() as int);
                    lemma_offset_whole(part_sizes@);
                }
                return None;
            }
            total = total + n;
            offsets.push(total);
            i = i + 1;
        }
        proof {
            lemma_offset_whole(part_sizes@);
        }
        if total != buffer.len() {
            return None;
        }
        let mut sizes: Vec<u32> = Vec::with_capacity(part_sizes.len());
        push_all_u32(&mut sizes, part_sizes);
        Some(MultipartReceived { buffer, part_sizes: sizes, offsets })
    }

    /// Number of parts.
    pub fn part_count(&self) -> (r: usize)
        ensures
            r == self.sizes().len(),
    {
        self.part_sizes.len()
    }

    /// The part at `index`, or `None` past the last part.
    pub fn get_part(&self, index: usize) -> (r: Option<&[u8]>)
        ensures
            r is Some <==> index < self.sizes().len(),
            r is Some ==> r.unwrap()@ == self.part_spec(index as int),
    {
        proof {
            use_type_invariant(self);
        }
        if index < self.part_sizes.len() {
            proof {
                lemma_offset_monotone(self.part_sizes@, index as int, index + 1);
                lemma_offset_monotone(self.part_sizes@, index + 1, self.part_sizes@.len() as int);
                lemma_offset_whole(self.part_sizes@);
            }
            let start = self.offsets[index];
            let end = self.offsets[index + 1];
            Some(&self.buffer[start..end])
        } else {
            None
        }
    }

    /// The whole buffer: all parts, one after another.
    pub fn as_bytes(&self) -> (r: &[u8])
        ensures
            r@ == self.bytes(),
    {
        self.buffer.as_slice()
    }
}

fn push_all_u32(out: &mut Vec<u32>, v: &[u32])
    ensures
        final(out)@ == old(out)@ + v@,
{
    let mut i: usize = 0;
    while i < v.len()
        invariant
            0 <= i <= v.len(),
            out@ == old(out)@ + v@.subrange(0, i as int),
        decreases v.len() - i,
    {
        out.push(v[i]);
        i = i + 1;
        assert(out@ =~= old(out)@ + v@.subrange(0, i as int));
    }
    assert(v@.subrange(0, v@.len() as int) =~= v@);
}

} // verus!
