use vstd::prelude::*;
use crate::bitset::{addel, delel, isel, members};
use crate::error::{BitokuError, ProcessError};
use crate::instruction::{
    decode_request, encode_request, lemma_request_round_trip_with_tail, unpack_request, Request,
    RequestModel,
};

verus! {

/// Identity that the allocator never hands out: reaching it means the
/// identity space is used up.
pub const LAST_ID: u8 = 255;

/// Stored size of the registry: the bitset, then `next_id`.
pub const BOOKKEEPER_LEN: usize = 33;

/// Stored size of a request record.
pub const REQUEST_DATA_LEN: usize = 675;

/// The client registry: which identities are registered, and the next
/// identity to hand out.
#[derive(Clone, Copy, Debug, PartialEq)]
pub struct BookKeeper {
    pub status: [u8; 32],
    pub next_id: u8,
}

pub ghost struct RegistryModel {
    pub occupied: Set<u8>,
    pub next_id: u8,
}

impl View for BookKeeper {
    type V = RegistryModel;

    open spec fn view(&self) -> RegistryModel {
        RegistryModel { occupied: members(self.status@), next_id: self.next_id }
    }
}

impl RegistryModel {
    /// Every registered identity lies below `next_id`.
    pub open spec fn wf(self) -> bool {
        forall|i: u8| self.occupied.contains(i) ==> i < self.next_id
    }

    /// What an allocation returns: the next identity, unless it is 255.
    pub open spec fn allocate_result(self) -> Result<u8, BitokuError> {
        if self.next_id == LAST_ID {
            Err(BitokuError::NoAvailableClients)
        } else {
            Ok(self.next_id)
        }
    }

    /// The registry after an allocation; a failed one changes nothing.
    pub open spec fn allocated(self) -> RegistryModel {
        if self.next_id == LAST_ID {
            self
        } else {
            RegistryModel {
                occupied: self.occupied.insert(self.next_id),
                next_id: (self.next_id + 1) as u8,
            }
        }
    }

    /// The registry after `id` is released: its bit cleared, the counter kept.
    pub open spec fn released(self, id: u8) -> RegistryModel {
        RegistryModel { occupied: self.occupied.remove(id), next_id: self.next_id }
    }
}

/// The registry after `n` allocations in a row, with no release between them.
pub open spec fn allocate_n(m: RegistryModel, n: nat) -> RegistryModel
    decreases n,
{
    if n == 0 {
        m
    } else {
        allocate_n(m, (n - 1) as nat).allocated()
    }
}

/// Allocation and release keep every registered identity below the counter,
/// and never lower the counter.
pub proof fn lemma_registry_wf_preserved(m: RegistryModel, k: u8)
    requires
        m.wf(),
    ensures
        m.allocated().wf(),
        m.released(k).wf(),
        m.allocated().next_id >= m.next_id,
        m.released(k).next_id == m.next_id,
{
}

/// The registry that initialization creates.
pub open spec fn empty_registry() -> RegistryModel {
    RegistryModel { occupied: Set::empty(), next_id: 0 }
}

/// From the empty registry, `n` allocations (n at most 255) leave
/// `next_id == n` and exactly the identities `0..n` registered; each of them
/// succeeds, handing out the identities in order.
pub proof fn lemma_allocate_from_empty(n: nat)
    requires
        n <= LAST_ID,
    ensures
        allocate_n(empty_registry(), n) == (RegistryModel {
            occupied: Set::new(|i: u8| i < n),
            next_id: n as u8,
        }),
        n < LAST_ID ==> allocate_n(empty_registry(), n).allocate_result() == Ok::<
            u8,
            BitokuError,
        >(n as u8),
    decreases n,
{
    if n > 0 {
        lemma_allocate_from_empty((n - 1) as nat);
        let prev = allocate_n(empty_registry(), (n - 1) as nat);
        assert(prev.occupied.insert(prev.next_id) =~= Set::new(|i: u8| i < n));
    } else {
        assert(Set::new(|i: u8| i < 0) =~= Set::<u8>::empty());
    }
}

/// After 255 allocations from the empty registry a further allocation fails
/// with `NoAvailableClients`, leaves the registry as it was, and identity 255
/// stays unregistered.
pub proof fn lemma_allocate_exhausted()
    ensures
        allocate_n(empty_registry(), 255).allocate_result() == Err::<u8, BitokuError>(
            BitokuError::NoAvailableClients,
        ),
        allocate_n(empty_registry(), 256) == allocate_n(empty_registry(), 255),
        allocate_n(empty_registry(), 255).next_id == 255,
        !allocate_n(empty_registry(), 255).occupied.contains(255),
{
    lemma_allocate_from_empty(255);
}

/// One operation on the registry.
pub ghost enum RegistryOp {
    Allocate,
    Release { id: u8 },
}

/// The registry after the operations `ops`, in order.
pub open spec fn apply_ops(m: RegistryModel, ops: Seq<RegistryOp>) -> RegistryModel
    decreases ops.len(),
{
    if ops.len() == 0 {
        m
    } else {
        let before = apply_ops(m, ops.drop_last());
        match ops.last() {
            RegistryOp::Allocate => before.allocated(),
            RegistryOp::Release { id } => before.released(id),
        }
    }
}

/// Once a registered identity `k` is released, it is never handed out again:
/// after any further allocations and releases the counter still lies above
/// `k`, `k` stays unregistered, and the next allocation does not return it.
pub proof fn lemma_no_reuse(m: RegistryModel, k: u8, ops: Seq<RegistryOp>)
    requires
        m.wf(),
        m.occupied.contains(k),
    ensures
        apply_ops(m.released(k), ops).next_id >= m.next_id,
        apply_ops(m.released(k), ops).next_id > k,
        !apply_ops(m.released(k), ops).occupied.contains(k),
        apply_ops(m.released(k), ops).allocate_result() != Ok::<u8, BitokuError>(k),
    decreases ops.len(),
{
    if ops.len() > 0 {
        lemma_no_reuse(m, k, ops.drop_last());
    }
}

/// Stored bytes of a registry: the 32 bitset bytes, then `next_id`.
pub open spec fn encode_bookkeeper(b: BookKeeper) -> Seq<u8> {
    b.status@ + seq![b.next_id]
}

/// Copies `b[at..at + 32]` into a 32-byte array.
pub fn read_key(b: &[u8], at: usize) -> (r: [u8; 32])
    requires
        at + 32 <= b.len(),
    ensures
        r@ == b@.subrange(at as int, at + 32),
{
    let mut out = [0u8; 32];
    let mut i: usize = 0;
    while i < 32
        invariant
            i <= 32,
            at + 32 <= b.len(),
            forall|k: int| 0 <= k < i ==> out@[k] == b@[at + k],
        decreases 32 - i,
    {
        out[i] = b[at + i];
        i += 1;
    }
    assert(out@ =~= b@.subrange(at as int, at + 32));
    out
}

/// Writes `src` into `dst` from offset `at`; the other bytes keep their values.
fn write_at(dst: &mut [u8], at: usize, src: &[u8])
    requires
        at + src@.len() <= old(dst)@.len(),
    ensures
        final(dst)@ == old(dst)@.subrange(0, at as int) + src@ + old(dst)@.subrange(
            at + src@.len(),
            old(dst)@.len() as int,
        ),
{
    let n = dst.len();
    let mut i: usize = 0;
    while i < src.len()
        invariant
            i <= src.len(),
            n == dst@.len(),
            at + src@.len() <= dst@.len(),
            dst@.len() == old(dst)@.len(),
            forall|k: int| 0 <= k < i ==> dst@[at + k] == src@[k],
            forall|k: int| 0 <= k < dst@.len() && !(at <= k < at + i) ==> dst@[k] == old(dst)@[k],
        decreases src.len() - i,
    {
        dst[at + i] = src[i];
        i += 1;
    }
    assert(final(dst)@ =~= old(dst)@.subrange(0, at as int) + src@ + old(dst)@.subrange(
        at + src@.len(),
        old(dst)@.len() as int,
    ));
}

impl BookKeeper {
    /// A registry in its zero state: nobody registered, next identity 0.
    pub fn new() -> (r: BookKeeper)
        ensures
            r@ == (RegistryModel { occupied: Set::empty(), next_id: 0 }),
            r.status@ == Seq::new(32, |i: int| 0u8),
    {
        let r = BookKeeper { status: [0u8; 32], next_id: 0 };
        assert(r.status@ =~= Seq::new(32, |i: int| 0u8));
        assert(members(r.status@) =~= Set::empty()) by {
            assert forall|e: u8| !crate::bitset::bit_at(r.status@, e) by {
                let x = r.status@[(e / 8) as int];
                let off = e % 8;
                assert(x == 0);
                assert((0u8 >> off) & 1u8 == 0u8) by (bit_vector);
            }
        }
        r
    }

    /// Whether identity `id` is registered.
    pub fn contains(&self, id: u8) -> (r: bool)
        ensures
            r == self@.occupied.contains(id),
    {
        isel(self.status, id)
    }

    /// Hands out the next identity and marks it registered. Once the counter
    /// has reached 255 it fails with `NoAvailableClients` and changes nothing.
    pub fn allocate(&mut self) -> (r: Result<u8, BitokuError>)
        ensures
            r == old(self)@.allocate_result(),
            final(self)@ == old(self)@.allocated(),
            r is Err ==> *final(self) == *old(self),
    {
        if self.next_id == LAST_ID {
            return Err(BitokuError::NoAvailableClients);
        }
        let id = self.next_id;
        addel(&mut self.status, id);
        self.next_id = id + 1;
        Ok(id)
    }

    /// Clears the bit of `id`; releasing an identity that is not set changes
    /// nothing. The counter is kept, so the identity is never handed out again.
    pub fn release(&mut self, id: u8)
        ensures
            final(self)@ == old(self)@.released(id),
    {
        delel(&mut self.status, id);
    }

    /// Reads a registry from the first 33 bytes of `src`; bytes after them
    /// are ignored.
    pub fn unpack_from_slice(src: &[u8]) -> (r: Result<BookKeeper, ProcessError>)
        ensures
            src@.len() < BOOKKEEPER_LEN ==> r == Err::<BookKeeper, ProcessError>(
                ProcessError::InvalidAccountData,
            ),
            src@.len() >= BOOKKEEPER_LEN ==> r is Ok && encode_bookkeeper(r->Ok_0) == src@.subrange(
                0,
                BOOKKEEPER_LEN as int,
            ),
    {
        if src.len() < BOOKKEEPER_LEN {
            return Err(ProcessError::InvalidAccountData);
        }
        let b = BookKeeper { status: read_key(src, 0), next_id: src[32] };
        assert(encode_bookkeeper(b) =~= src@.subrange(0, BOOKKEEPER_LEN as int));
        Ok(b)
    }

    /// Writes the registry's 33 bytes at the start of `dst`; bytes after them
    /// keep their values.
    pub fn pack_into_slice(&self, dst: &mut [u8])
        requires
            old(dst)@.len() >= BOOKKEEPER_LEN,
        ensures
            final(dst)@ == encode_bookkeeper(*self) + old(dst)@.subrange(
                BOOKKEEPER_LEN as int,
                old(dst)@.len() as int,
            ),
    {
        write_at(dst, 0, self.status.as_slice());
        dst[32] = self.next_id;
        assert(final(dst)@ =~= encode_bookkeeper(*self) + old(dst)@.subrange(
            BOOKKEEPER_LEN as int,
            old(dst)@.len() as int,
        ));
    }

    /// Reads a registry from stored bytes, which must have exactly the
    /// registry's 33-byte size.
    pub fn unpack(src: &[u8]) -> (r: Result<BookKeeper, ProcessError>)
        ensures
            src@.len() != BOOKKEEPER_LEN ==> r == Err::<BookKeeper, ProcessError>(
                ProcessError::InvalidAccountData,
            ),
            src@.len() == BOOKKEEPER_LEN ==> r is Ok && encode_bookkeeper(r->Ok_0) == src@,
    {
        if src.len() != BOOKKEEPER_LEN {
            return Err(ProcessError::InvalidAccountData);
        }
        let r = BookKeeper::unpack_from_slice(src);
        assert(src@.subrange(0, BOOKKEEPER_LEN as int) =~= src@);
        r
    }

    /// Writes the registry into `dst`, which must have exactly the registry's
    /// 33-byte size.
    pub fn pack(&self, dst: &mut [u8]) -> (r: Result<(), ProcessError>)
        ensures
            old(dst)@.len() != BOOKKEEPER_LEN ==> r == Err::<(), ProcessError>(
                ProcessError::InvalidAccountData,
            ) && final(dst)@ == old(dst)@,
            old(dst)@.len() == BOOKKEEPER_LEN ==> r is Ok && final(dst)@ == encode_bookkeeper(
                *self,
            ),
    {
        if dst.len() != BOOKKEEPER_LEN {
            return Err(ProcessError::InvalidAccountData);
        }
        self.pack_into_slice(dst);
        assert(final(dst)@ =~= encode_bookkeeper(*self));
        Ok(())
    }
}

/// A client's record: its identity, who last posted to it, and the request.
#[derive(Clone, Copy, Debug, PartialEq)]
pub struct RequestData {
    pub client_id: u8,
    pub requester: [u8; 32],
    pub request: Request,
}

pub ghost struct RecordModel {
    pub client_id: u8,
    pub requester: Seq<u8>,
    pub request: RequestModel,
}

impl View for RequestData {
    type V = RecordModel;

    open spec fn view(&self) -> RecordModel {
        RecordModel {
            client_id: self.client_id,
            requester: self.requester@,
            request: self.request@,
        }
    }
}

/// Stored bytes of a record's fields: `client_id`, the 32 requester bytes,
/// then the request's wire bytes. The layout has room for the largest request;
/// bytes after a shorter one are not part of it.
pub open spec fn encode_record(m: RecordModel) -> Seq<u8> {
    seq![m.client_id] + m.requester + encode_request(m.request)
}

/// A record read from stored bytes of at least the stored size: `client_id`,
/// the requester, then the request decoded from all bytes after offset 33.
pub open spec fn decode_record_from(s: Seq<u8>) -> Result<RecordModel, ProcessError> {
    if s.len() < REQUEST_DATA_LEN {
        Err(ProcessError::InvalidAccountData)
    } else {
        match decode_request(s.subrange(33, s.len() as int)) {
            Ok(request) => Ok(
                RecordModel { client_id: s[0], requester: s.subrange(1, 33), request },
            ),
            Err(e) => Err(ProcessError::Bitoku(e)),
        }
    }
}

/// A record read from stored bytes of exactly the stored size.
pub open spec fn decode_record(s: Seq<u8>) -> Result<RecordModel, ProcessError> {
    if s.len() != REQUEST_DATA_LEN {
        Err(ProcessError::InvalidAccountData)
    } else {
        decode_record_from(s)
    }
}

/// Every record's bytes fit in the stored size.
pub proof fn lemma_record_fits(m: RecordModel)
    requires
        m.requester.len() == 32,
        m.request.wf(),
    ensures
        encode_record(m).len() <= REQUEST_DATA_LEN,
{
}

/// A packed record reads back as the same record, whatever the stored bytes
/// after the request's layout hold.
pub proof fn lemma_record_round_trip(d: RequestData, tail: Seq<u8>)
    requires
        encode_record(d@).len() + tail.len() == REQUEST_DATA_LEN,
    ensures
        decode_record(encode_record(d@) + tail) == Ok::<RecordModel, ProcessError>(d@),
{
    let s = encode_record(d@) + tail;
    assert(s.subrange(33, s.len() as int) =~= encode_request(d.request@) + tail);
    lemma_request_round_trip_with_tail(d.request@, tail);
    assert(s.subrange(1, 33) =~= d.requester@);
}

impl RequestData {
    /// Reads a record from `src`, which must hold at least the stored size;
    /// the request is decoded from every byte after offset 33.
    pub fn unpack_from_slice(src: &[u8]) -> (r: Result<RequestData, ProcessError>)
        ensures
            match decode_record_from(src@) {
                Ok(m) => r is Ok && r->Ok_0@ == m,
                Err(e) => r == Err::<RequestData, ProcessError>(e),
            },
    {
        if src.len() < REQUEST_DATA_LEN {
            return Err(ProcessError::InvalidAccountData);
        }
        let client_id = src[0];
        let requester = read_key(src, 1);
        let body = vstd::slice::slice_subrange(src, 33, src.len());
        match unpack_request(body) {
            Ok(request) => Ok(RequestData { client_id, requester, request }),
            Err(e) => Err(ProcessError::Bitoku(e)),
        }
    }

    /// Writes the record's bytes at the start of `dst`; bytes past the end of
    /// the request's layout keep their values.
    pub fn pack_into_slice(&self, dst: &mut [u8])
        requires
            old(dst)@.len() >= encode_record(self@).len(),
        ensures
            final(dst)@ == encode_record(self@) + old(dst)@.subrange(
                encode_record(self@).len() as int,
                old(dst)@.len() as int,
            ),
    {
        let mut bytes: Vec<u8> = Vec::new();
        bytes.push(self.client_id);
        let mut i: usize = 0;
        while i < 32
            invariant
                i <= 32,
                bytes@ == seq![self.client_id] + self.requester@.subrange(0, i as int),
            decreases 32 - i,
        {
            bytes.push(self.requester[i]);
            i += 1;
            assert(self.requester@.subrange(0, i as int) == self.requester@.subrange(0, i - 1)
                + seq![self.requester@[i - 1]]);
        }
        assert(self.requester@.subrange(0, 32) =~= self.requester@);
        crate::instruction::push_request(&mut bytes, &self.request);
        assert(bytes@ =~= encode_record(self@));
        write_at(dst, 0, bytes.as_slice());
        assert(final(dst)@ =~= encode_record(self@) + old(dst)@.subrange(
            encode_record(self@).len() as int,
            old(dst)@.len() as int,
        ));
    }

    /// Reads a record from stored bytes, which must have exactly the stored
    /// size of 675 bytes.
    pub fn unpack(src: &[u8]) -> (r: Result<RequestData, ProcessError>)
        ensures
            match decode_record(src@) {
                Ok(m) => r is Ok && r->Ok_0@ == m,
                Err(e) => r == Err::<RequestData, ProcessError>(e),
            },
    {
        if src.len() != REQUEST_DATA_LEN {
            return Err(ProcessError::InvalidAccountData);
        }
        RequestData::unpack_from_slice(src)
    }

    /// Writes the record into `dst`, which must have exactly the stored size;
    /// bytes past the end of the request's layout keep their values.
    pub fn pack(&self, dst: &mut [u8]) -> (r: Result<(), ProcessError>)
        ensures
            old(dst)@.len() != REQUEST_DATA_LEN ==> r == Err::<(), ProcessError>(
                ProcessError::InvalidAccountData,
            ) && final(dst)@ == old(dst)@,
            old(dst)@.len() == REQUEST_DATA_LEN ==> r is Ok && final(dst)@ == encode_record(self@)
                + old(dst)@.subrange(encode_record(self@).len() as int, REQUEST_DATA_LEN as int),
    {
        if dst.len() != REQUEST_DATA_LEN {
            return Err(ProcessError::InvalidAccountData);
        }
        proof {
            lemma_record_fits(self@);
        }
        self.pack_into_slice(dst);
        Ok(())
    }
}

} // verus!
