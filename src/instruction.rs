use vstd::prelude::*;
use crate::error::BitokuError;
use vstd::slice::slice_subrange;

verus! {

/// Bytes in a request's name buffer.
pub const NAME_LEN: usize = 128;

/// Bytes in a request's data buffer.
pub const DATA_LEN: usize = 512;

/// A file or bucket operation that a client posts for a worker.
#[derive(Clone, Copy, Debug, PartialEq)]
pub enum Request {
    CreateBucket { name: [u8; 128] },
    CreateFile { name: [u8; 128], data: [u8; 512] },
    WriteFile { name: [u8; 128], file_id: u8, data: [u8; 512] },
    CloseFile { name: [u8; 128], file_id: u8 },
    DeleteFile { name: [u8; 128], file_id: u8 },
    SetPosition { name: [u8; 128], file_id: u8, position: u64 },
    OpenFile { name: [u8; 128], file_id: u8 },
    ReadFile { name: [u8; 128], file_id: u8 },
}

/// A request with its buffers seen as byte sequences.
pub ghost enum RequestModel {
    CreateBucket { name: Seq<u8> },
    CreateFile { name: Seq<u8>, data: Seq<u8> },
    WriteFile { name: Seq<u8>, file_id: u8, data: Seq<u8> },
    CloseFile { name: Seq<u8>, file_id: u8 },
    DeleteFile { name: Seq<u8>, file_id: u8 },
    SetPosition { name: Seq<u8>, file_id: u8, position: u64 },
    OpenFile { name: Seq<u8>, file_id: u8 },
    ReadFile { name: Seq<u8>, file_id: u8 },
}

impl RequestModel {
    pub open spec fn name(self) -> Seq<u8> {
        match self {
            RequestModel::CreateBucket { name } => name,
            RequestModel::CreateFile { name, .. } => name,
            RequestModel::WriteFile { name, .. } => name,
            RequestModel::CloseFile { name, .. } => name,
            RequestModel::DeleteFile { name, .. } => name,
            RequestModel::SetPosition { name, .. } => name,
            RequestModel::OpenFile { name, .. } => name,
            RequestModel::ReadFile { name, .. } => name,
        }
    }

    /// Buffers have their fixed sizes: 128 name bytes, 512 data bytes.
    pub open spec fn wf(self) -> bool {
        &&& self.name().len() == NAME_LEN
        &&& match self {
            RequestModel::CreateFile { data, .. } => data.len() == DATA_LEN,
            RequestModel::WriteFile { data, .. } => data.len() == DATA_LEN,
            _ => true,
        }
    }
}

impl View for Request {
    type V = RequestModel;

    open spec fn view(&self) -> RequestModel {
        match *self {
            Request::CreateBucket { name } => RequestModel::CreateBucket { name: name@ },
            Request::CreateFile { name, data } => RequestModel::CreateFile {
                name: name@,
                data: data@,
            },
            Request::WriteFile { name, file_id, data } => RequestModel::WriteFile {
                name: name@,
                file_id,
                data: data@,
            },
            Request::CloseFile { name, file_id } => RequestModel::CloseFile {
                name: name@,
                file_id,
            },
            Request::DeleteFile { name, file_id } => RequestModel::DeleteFile {
                name: name@,
                file_id,
            },
            Request::SetPosition { name, file_id, position } => RequestModel::SetPosition {
                name: name@,
                file_id,
                position,
            },
            Request::OpenFile { name, file_id } => RequestModel::OpenFile {
                name: name@,
                file_id,
            },
            Request::ReadFile { name, file_id } => RequestModel::ReadFile {
                name: name@,
                file_id,
            },
        }
    }
}

/// The instructions that the broker accepts.
#[derive(Clone, Copy, Debug, PartialEq)]
pub enum BitokuInstructions {
    InitBitoku,
    RegisterClient,
    RemoveClient { client_id: u8 },
    SendRequest { client_id: u8, request: Request },
}

pub ghost enum InstructionModel {
    InitBitoku,
    RegisterClient,
    RemoveClient { client_id: u8 },
    SendRequest { client_id: u8, request: RequestModel },
}

impl InstructionModel {
    pub open spec fn wf(self) -> bool {
        match self {
            InstructionModel::SendRequest { request, .. } => request.wf(),
            _ => true,
        }
    }
}

impl View for BitokuInstructions {
    type V = InstructionModel;

    open spec fn view(&self) -> InstructionModel {
        match *self {
            BitokuInstructions::InitBitoku => InstructionModel::InitBitoku,
            BitokuInstructions::RegisterClient => InstructionModel::RegisterClient,
            BitokuInstructions::RemoveClient { client_id } => InstructionModel::RemoveClient {
                client_id,
            },
            BitokuInstructions::SendRequest { client_id, request } =>
                InstructionModel::SendRequest { client_id, request: request@ },
        }
    }
}

/// The eight little-endian bytes of `p`.
pub open spec fn le_bytes(p: u64) -> Seq<u8> {
    seq![
        (p & 0xff) as u8,
        ((p >> 8u64) & 0xff) as u8,
        ((p >> 16u64) & 0xff) as u8,
        ((p >> 24u64) & 0xff) as u8,
        ((p >> 32u64) & 0xff) as u8,
        ((p >> 40u64) & 0xff) as u8,
        ((p >> 48u64) & 0xff) as u8,
        ((p >> 56u64) & 0xff) as u8,
    ]
}

/// The number whose little-endian bytes are `b[0..8]`.
pub open spec fn from_le(b: Seq<u8>) -> u64 {
    (b[0] as u64) | ((b[1] as u64) << 8u64) | ((b[2] as u64) << 16u64) | ((b[3] as u64)
        << 24u64) | ((b[4] as u64) << 32u64) | ((b[5] as u64) << 40u64) | ((b[6] as u64)
        << 48u64) | ((b[7] as u64) << 56u64)
}

/// Wire bytes of a request: its tag, the name, then the fields of its variant.
/// `CreateFile` keeps a zero byte where the other variants hold `file_id`.
pub open spec fn encode_request(r: RequestModel) -> Seq<u8> {
    match r {
        RequestModel::CreateBucket { name } => seq![0u8] + name,
        RequestModel::CreateFile { name, data } => seq![1u8] + name + seq![0u8] + data,
        RequestModel::WriteFile { name, file_id, data } => seq![2u8] + name + seq![file_id]
            + data,
        RequestModel::CloseFile { name, file_id } => seq![3u8] + name + seq![file_id],
        RequestModel::DeleteFile { name, file_id } => seq![4u8] + name + seq![file_id],
        RequestModel::SetPosition { name, file_id, position } => seq![5u8] + name + seq![file_id]
            + le_bytes(position),
        RequestModel::OpenFile { name, file_id } => seq![6u8] + name + seq![file_id],
        RequestModel::ReadFile { name, file_id } => seq![7u8] + name + seq![file_id],
    }
}

/// Wire bytes of an instruction: its tag, then `client_id` and the request
/// where the variant has them.
pub open spec fn encode(i: InstructionModel) -> Seq<u8> {
    match i {
        InstructionModel::InitBitoku => seq![0u8],
        InstructionModel::RegisterClient => seq![1u8],
        InstructionModel::RemoveClient { client_id } => seq![2u8, client_id],
        InstructionModel::SendRequest { client_id, request } => seq![3u8, client_id]
            + encode_request(request),
    }
}

/// The 512-byte data buffer read from a request body `d` (the bytes after the
/// tag): the bytes from offset 129 on, cut at 512 and padded with zeros.
pub open spec fn data_of(d: Seq<u8>) -> Seq<u8> {
    Seq::new(DATA_LEN as nat, |i: int| if 129 + i < d.len() { d[129 + i] } else { 0u8 })
}

/// Decodes a request body `d` (the bytes after the tag) under tag `tag`.
pub open spec fn decode_request_body(tag: u8, d: Seq<u8>) -> Result<RequestModel, BitokuError> {
    let name = d.subrange(0, NAME_LEN as int);
    if d.len() < NAME_LEN {
        Err(BitokuError::InvalidInstructionData)
    } else if tag == 0 {
        Ok(RequestModel::CreateBucket { name })
    } else if tag == 1 {
        Ok(RequestModel::CreateFile { name, data: data_of(d) })
    } else if tag > 7 {
        Err(BitokuError::InvalidInstruction)
    } else if d.len() <= NAME_LEN {
        Err(BitokuError::InvalidFileId)
    } else if tag == 2 {
        Ok(RequestModel::WriteFile { name, file_id: d[128], data: data_of(d) })
    } else if tag == 3 {
        Ok(RequestModel::CloseFile { name, file_id: d[128] })
    } else if tag == 4 {
        Ok(RequestModel::DeleteFile { name, file_id: d[128] })
    } else if tag == 5 {
        if d.len() < 137 {
            Err(BitokuError::InvalidPosition)
        } else {
            Ok(
                RequestModel::SetPosition {
                    name,
                    file_id: d[128],
                    position: from_le(d.subrange(129, 137)),
                },
            )
        }
    } else if tag == 6 {
        Ok(RequestModel::OpenFile { name, file_id: d[128] })
    } else {
        Ok(RequestModel::ReadFile { name, file_id: d[128] })
    }
}

/// Decodes request bytes: a variant tag, then its body.
pub open spec fn decode_request(s: Seq<u8>) -> Result<RequestModel, BitokuError> {
    if s.len() == 0 {
        Err(BitokuError::InvalidInstructionData)
    } else {
        decode_request_body(s[0], s.subrange(1, s.len() as int))
    }
}

/// Decodes instruction bytes.
pub open spec fn decode(s: Seq<u8>) -> Result<InstructionModel, BitokuError> {
    if s.len() == 0 {
        Err(BitokuError::InvalidInstructionData)
    } else if s[0] == 0 {
        Ok(InstructionModel::InitBitoku)
    } else if s[0] == 1 {
        Ok(InstructionModel::RegisterClient)
    } else if s[0] == 2 {
        if s.len() < 2 {
            Err(BitokuError::InvalidClientId)
        } else {
            Ok(InstructionModel::RemoveClient { client_id: s[1] })
        }
    } else if s[0] == 3 {
        if s.len() < 2 {
            Err(BitokuError::InvalidInstructionData)
        } else {
            match decode_request(s.subrange(2, s.len() as int)) {
                Ok(request) => Ok(InstructionModel::SendRequest { client_id: s[1], request }),
                Err(e) => Err(e),
            }
        }
    } else {
        Err(BitokuError::InvalidInstruction)
    }
}

/// Whether an executable decoding result is the decoded model `m`.
pub open spec fn decoded_as<T: View>(r: Result<T, BitokuError>, m: Result<T::V, BitokuError>) -> bool {
    match m {
        Ok(v) => r is Ok && r->Ok_0@ == v,
        Err(e) => r == Err::<T, BitokuError>(e),
    }
}


/// Appends every byte of `src` to `buf`.
fn push_all(buf: &mut Vec<u8>, src: &[u8])
    ensures
        final(buf)@ == old(buf)@ + src@,
{
    let mut i: usize = 0;
    while i < src.len()
        invariant
            i <= src.len(),
            buf@ == old(buf)@ + src@.subrange(0, i as int),
        decreases src.len() - i,
    {
        buf.push(src[i]);
        i += 1;
        assert(src@.subrange(0, i as int) == src@.subrange(0, i - 1) + seq![src@[i - 1]]);
    }
    assert(src@.subrange(0, src.len() as int) == src@);
}

/// Appends the little-endian bytes of `p` to `buf`.
fn push_le_u64(buf: &mut Vec<u8>, p: u64)
    ensures
        final(buf)@ == old(buf)@ + le_bytes(p),
{
    buf.push((p & 0xff) as u8);
    buf.push(((p >> 8u64) & 0xff) as u8);
    buf.push(((p >> 16u64) & 0xff) as u8);
    buf.push(((p >> 24u64) & 0xff) as u8);
    buf.push(((p >> 32u64) & 0xff) as u8);
    buf.push(((p >> 40u64) & 0xff) as u8);
    buf.push(((p >> 48u64) & 0xff) as u8);
    buf.push(((p >> 56u64) & 0xff) as u8);
    assert(final(buf)@ =~= old(buf)@ + le_bytes(p));
}

/// Reads the little-endian number in `b[at..at + 8]`.
fn read_le_u64(b: &[u8], at: usize) -> (r: u64)
    requires
        at + 8 <= b.len(),
    ensures
        r == from_le(b@.subrange(at as int, at + 8)),
{
    (b[at] as u64) | ((b[at + 1] as u64) << 8u64) | ((b[at + 2] as u64) << 16u64) | ((b[at
        + 3] as u64) << 24u64) | ((b[at + 4] as u64) << 32u64) | ((b[at + 5] as u64) << 40u64)
        | ((b[at + 6] as u64) << 48u64) | ((b[at + 7] as u64) << 56u64)
}

/// Appends the wire bytes of `request` to `buf`.
pub(crate) fn push_request(buf: &mut Vec<u8>, request: &Request)
    ensures
        final(buf)@ == old(buf)@ + encode_request(request@),
{
    match request {
        Request::CreateBucket { name } => {
            buf.push(0);
            push_all(buf, name.as_slice());
        },
        Request::CreateFile { name, data } => {
            buf.push(1);
            push_all(buf, name.as_slice());
            buf.push(0);
            push_all(buf, data.as_slice());
        },
        Request::WriteFile { name, file_id, data } => {
            buf.push(2);
            push_all(buf, name.as_slice());
            buf.push(*file_id);
            push_all(buf, data.as_slice());
        },
        Request::CloseFile { name, file_id } => {
            buf.push(3);
            push_all(buf, name.as_slice());
            buf.push(*file_id);
        },
        Request::DeleteFile { name, file_id } => {
            buf.push(4);
            push_all(buf, name.as_slice());
            buf.push(*file_id);
        },
        Request::SetPosition { name, file_id, position } => {
            buf.push(5);
            push_all(buf, name.as_slice());
            buf.push(*file_id);
            push_le_u64(buf, *position);
        },
        Request::OpenFile { name, file_id } => {
            buf.push(6);
            push_all(buf, name.as_slice());
            buf.push(*file_id);
        },
        Request::ReadFile { name, file_id } => {
            buf.push(7);
            push_all(buf, name.as_slice());
            buf.push(*file_id);
        },
    }
    assert(final(buf)@ =~= old(buf)@ + encode_request(request@));
}

impl BitokuInstructions {
    /// Encodes the instruction in its wire layout.
    pub fn pack(&self) -> (r: Vec<u8>)
        ensures
            r@ == encode(self@),
    {
        let mut buf: Vec<u8> = Vec::new();
        match self {
            BitokuInstructions::InitBitoku => {
                buf.push(0);
            },
            BitokuInstructions::RegisterClient => {
                buf.push(1);
            },
            BitokuInstructions::RemoveClient { client_id } => {
                buf.push(2);
                buf.push(*client_id);
            },
            BitokuInstructions::SendRequest { client_id, request } => {
                buf.push(3);
                buf.push(*client_id);
                push_request(&mut buf, request);
            },
        }
        assert(buf@ =~= encode(self@));
        buf
    }

    /// Decodes an instruction from its wire layout.
    pub fn unpack(input: &[u8]) -> (r: Result<BitokuInstructions, BitokuError>)
        ensures
            decoded_as(r, decode(input@)),
    {
        if input.len() == 0 {
            return Err(BitokuError::InvalidInstructionData);
        }
        let tag = input[0];
        if tag == 0 {
            Ok(BitokuInstructions::InitBitoku)
        } else if tag == 1 {
            Ok(BitokuInstructions::RegisterClient)
        } else if tag == 2 {
            if input.len() < 2 {
                Err(BitokuError::InvalidClientId)
            } else {
                Ok(BitokuInstructions::RemoveClient { client_id: input[1] })
            }
        } else if tag == 3 {
            if input.len() < 2 {
                Err(BitokuError::InvalidInstructionData)
            } else {
                let client_id = input[1];
                let body = slice_from(input, 2);
                match unpack_request(body) {
                    Ok(request) => Ok(BitokuInstructions::SendRequest { client_id, request }),
                    Err(e) => Err(e),
                }
            }
        } else {
            Err(BitokuError::InvalidInstruction)
        }
    }
}

/// The bytes of `b` from `start` on.
fn slice_from(b: &[u8], start: usize) -> (r: &[u8])
    requires
        start <= b.len(),
    ensures
        r@ == b@.subrange(start as int, b.len() as int),
{
    slice_subrange(b, start, b.len())
}

/// Copies `b[at..at + 128]` into a name buffer.
fn read_name(b: &[u8], at: usize) -> (r: [u8; 128])
    requires
        at + NAME_LEN <= b.len(),
    ensures
        r@ == b@.subrange(at as int, at + NAME_LEN),
{
    let mut name = [0u8; 128];
    let mut i: usize = 0;
    while i < NAME_LEN
        invariant
            i <= NAME_LEN,
            at + NAME_LEN <= b.len(),
            forall|k: int| 0 <= k < i ==> name@[k] == b@[at + k],
        decreases NAME_LEN - i,
    {
        name[i] = b[at + i];
        i += 1;
    }
    assert(name@ =~= b@.subrange(at as int, at + NAME_LEN));
    name
}

/// The data buffer of a request body `d`, as `data_of` gives it.
fn read_data(d: &[u8]) -> (r: [u8; 512])
    ensures
        r@ == data_of(d@),
{
    let mut data = [0u8; 512];
    let mut i: usize = 0;
    while i < DATA_LEN
        invariant
            i <= DATA_LEN,
            forall|k: int| 0 <= k < i ==> data@[k] == data_of(d@)[k],
            forall|k: int| i <= k < DATA_LEN ==> data@[k] == 0u8,
        decreases DATA_LEN - i,
    {
        if i < d.len() && d.len() - i > 129 {
            data[i] = d[129 + i];
        }
        i += 1;
    }
    assert(data@ =~= data_of(d@));
    data
}

/// Decodes a request: a variant tag, a 128-byte name, then the fields of the
/// variant. A short body gives the error of the first missing field.
pub fn unpack_request(input: &[u8]) -> (r: Result<Request, BitokuError>)
    ensures
        decoded_as(r, decode_request(input@)),
{
    if input.len() == 0 {
        return Err(BitokuError::InvalidInstructionData);
    }
    let tag = input[0];
    let d = slice_from(input, 1);
    if d.len() < NAME_LEN {
        return Err(BitokuError::InvalidInstructionData);
    }
    let name = read_name(d, 0);
    if tag == 0 {
        return Ok(Request::CreateBucket { name });
    }
    if tag == 1 {
        return Ok(Request::CreateFile { name, data: read_data(d) });
    }
    if tag > 7 {
        return Err(BitokuError::InvalidInstruction);
    }
    if d.len() <= NAME_LEN {
        return Err(BitokuError::InvalidFileId);
    }
    let file_id = d[128];
    if tag == 2 {
        Ok(Request::WriteFile { name, file_id, data: read_data(d) })
    } else if tag == 3 {
        Ok(Request::CloseFile { name, file_id })
    } else if tag == 4 {
        Ok(Request::DeleteFile { name, file_id })
    } else if tag == 5 {
        if d.len() < 137 {
            Err(BitokuError::InvalidPosition)
        } else {
            Ok(Request::SetPosition { name, file_id, position: read_le_u64(d, 129) })
        }
    } else if tag == 6 {
        Ok(Request::OpenFile { name, file_id })
    } else {
        Ok(Request::ReadFile { name, file_id })
    }
}

impl Request {
    /// The name buffer of the request, whatever its variant.
    pub fn name(&self) -> (r: [u8; 128])
        ensures
            r@ == self@.name(),
    {
        match self {
            Request::CreateBucket { name } => *name,
            Request::CreateFile { name, .. } => *name,
            Request::WriteFile { name, .. } => *name,
            Request::CloseFile { name, .. } => *name,
            Request::DeleteFile { name, .. } => *name,
            Request::SetPosition { name, .. } => *name,
            Request::OpenFile { name, .. } => *name,
            Request::ReadFile { name, .. } => *name,
        }
    }
}


/// Reading back the little-endian bytes of a number gives the number.
pub proof fn lemma_le_round_trip(p: u64)
    ensures
        from_le(le_bytes(p)) == p,
{
    let b = le_bytes(p);
    assert(b[0] == (p & 0xff) as u8);
    assert(b[7] == ((p >> 56u64) & 0xff) as u8);
    assert(p == ((((p & 0xff) as u8) as u64) | (((((p >> 8u64) & 0xff) as u8) as u64) << 8u64)
        | (((((p >> 16u64) & 0xff) as u8) as u64) << 16u64) | (((((p >> 24u64) & 0xff) as u8)
        as u64) << 24u64) | (((((p >> 32u64) & 0xff) as u8) as u64) << 32u64) | (((((p >> 40u64)
        & 0xff) as u8) as u64) << 40u64) | (((((p >> 48u64) & 0xff) as u8) as u64) << 48u64)
        | (((((p >> 56u64) & 0xff) as u8) as u64) << 56u64))) by (bit_vector);
}

/// Decoding the wire bytes of a request gives the request back, whatever
/// bytes follow them.
pub proof fn lemma_request_round_trip_with_tail(r: RequestModel, tail: Seq<u8>)
    requires
        r.wf(),
    ensures
        decode_request(encode_request(r) + tail) == Ok::<RequestModel, BitokuError>(r),
{
    let s = encode_request(r) + tail;
    let d = s.subrange(1, s.len() as int);
    let name = r.name();
    assert(d.subrange(0, NAME_LEN as int) =~= name);
    match r {
        RequestModel::CreateFile { name, data } => {
            assert(data_of(d) =~= data);
        },
        RequestModel::WriteFile { name, file_id, data } => {
            assert(data_of(d) =~= data);
        },
        RequestModel::SetPosition { name, file_id, position } => {
            assert(d.subrange(129, 137) =~= le_bytes(position));
            lemma_le_round_trip(position);
        },
        _ => {},
    }
}

/// Decoding the wire bytes of a request gives the request back.
pub proof fn lemma_request_round_trip(r: RequestModel)
    requires
        r.wf(),
    ensures
        decode_request(encode_request(r)) == Ok::<RequestModel, BitokuError>(r),
{
    lemma_request_round_trip_with_tail(r, Seq::empty());
    assert(encode_request(r) + Seq::empty() =~= encode_request(r));
}

/// Decoding the wire bytes of an instruction gives the instruction back.
pub proof fn lemma_instruction_round_trip(i: InstructionModel)
    requires
        i.wf(),
    ensures
        decode(encode(i)) == Ok::<InstructionModel, BitokuError>(i),
{
    if let InstructionModel::SendRequest { client_id, request } = i {
        let s = encode(i);
        assert(s.subrange(2, s.len() as int) =~= encode_request(request));
        lemma_request_round_trip(request);
    }
}

/// A packed instruction unpacks to an equal one.
pub proof fn lemma_pack_unpack(i: BitokuInstructions)
    ensures
        decode(encode(i@)) == Ok::<InstructionModel, BitokuError>(i@),
{
    lemma_instruction_round_trip(i@);
}

} // verus!
