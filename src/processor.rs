use vstd::prelude::*;
use crate::bitset::members;
use crate::error::{BitokuError, ProcessError};
use crate::instruction::Request;
use crate::name::{valid_name, validate_name};
use crate::state::{
    decode_record, encode_record, BookKeeper, RecordModel, RegistryModel,
    RequestData, BOOKKEEPER_LEN, REQUEST_DATA_LEN,
};
use solana_program::pubkey::Pubkey;

verus! {

/// The address and bump seed derived from `seeds` and `program_id`, if a bump
/// seed gives a valid program address.
pub uninterp spec fn program_address(seeds: Seq<Seq<u8>>, program_id: Seq<u8>) -> Option<(Seq<u8>, u8)>;

/// Relies on solana_program's `Pubkey::try_find_program_address`: the derived
/// address and bump depend on the seeds and the program id alone, and it
/// returns `None` rather than panicking when no bump seed works.
#[verifier::external_body]
fn find_program_address(seeds: &Vec<Vec<u8>>, program_id: &[u8; 32]) -> (r: Option<([u8; 32], u8)>)
    ensures
        match (program_address(seeds.deep_view(), program_id@), r) {
            (Some((address, bump)), Some((key, b))) => key@ == address && b == bump,
            (None, None) => true,
            _ => false,
        },
{
    let refs: Vec<&[u8]> = seeds.iter().map(|s| s.as_slice()).collect();
    let id = Pubkey::new_from_array(*program_id);
    Pubkey::try_find_program_address(&refs, &id).map(|(key, bump)| (key.to_bytes(), bump))
}

/// Seed bytes of the registry's address: `bookkeeper`.
pub open spec fn registry_seed() -> Seq<u8> {
    seq![98u8, 111, 111, 107, 107, 101, 101, 112, 101, 114]
}

/// Seed bytes of a record's address, before the payer's key: `request`.
pub open spec fn record_seed() -> Seq<u8> {
    seq![114u8, 101, 113, 117, 101, 115, 116]
}

/// Seeds of the registry's address.
pub open spec fn registry_seeds() -> Seq<Seq<u8>> {
    seq![registry_seed()]
}

/// Seeds of the record address of the client whose key is `payer`.
pub open spec fn record_seeds(payer: Seq<u8>) -> Seq<Seq<u8>> {
    seq![record_seed(), payer]
}

/// Whether `key` is the address derived from `seeds` under `program_id`.
pub open spec fn is_derived(seeds: Seq<Seq<u8>>, program_id: Seq<u8>, key: Seq<u8>) -> bool {
    match program_address(seeds, program_id) {
        Some((address, _)) => address == key,
        None => false,
    }
}

/// The bump seed of an address derived from `seeds`.
pub open spec fn derived_bump(seeds: Seq<Seq<u8>>, program_id: Seq<u8>) -> u8 {
    match program_address(seeds, program_id) {
        Some((_, bump)) => bump,
        None => 0,
    }
}

/// The registry that stored bytes of the registry's size hold.
pub open spec fn registry_of(s: Seq<u8>) -> RegistryModel {
    RegistryModel { occupied: members(s.subrange(0, 32)), next_id: s[32] }
}

/// Copies the bytes of `s` into a new vector.
fn bytes_of(s: &[u8]) -> (r: Vec<u8>)
    ensures
        r@ == s@,
{
    let mut v: Vec<u8> = Vec::new();
    let mut i: usize = 0;
    while i < s.len()
        invariant
            i <= s.len(),
            v@ == s@.subrange(0, i as int),
        decreases s.len() - i,
    {
        v.push(s[i]);
        i += 1;
        assert(s@.subrange(0, i as int) == s@.subrange(0, i - 1) + seq![s@[i - 1]]);
    }
    assert(s@.subrange(0, s.len() as int) == s@);
    v
}

/// Checks that `key` is an address derived from `seeds`, giving its bump seed.
fn check_derived(seeds: &Vec<Vec<u8>>, program_id: &[u8; 32], key: &[u8; 32]) -> (r: Result<
    u8,
    BitokuError,
>)
    ensures
        is_derived(seeds.deep_view(), program_id@, key@) ==> r == Ok::<u8, BitokuError>(
            derived_bump(seeds.deep_view(), program_id@),
        ),
        !is_derived(seeds.deep_view(), program_id@, key@) ==> r == Err::<u8, BitokuError>(
            BitokuError::InvalidAccount,
        ),
{
    match find_program_address(seeds, program_id) {
        Some((derived, bump)) => {
            assert(program_address(seeds.deep_view(), program_id@) == Some((derived@, bump)));
            let mut i: usize = 0;
            while i < 32
                invariant
                    i <= 32,
                    program_address(seeds.deep_view(), program_id@) == Some((derived@, bump)),
                    forall|k: int| 0 <= k < i ==> derived@[k] == key@[k],
                decreases 32 - i,
            {
                if derived[i] != key[i] {
                    assert(derived@[i as int] != key@[i as int]);
                    assert(derived@ != key@);
                    return Err(BitokuError::InvalidAccount);
                }
                i += 1;
            }
            assert(derived@ =~= key@);
            Ok(bump)
        },
        None => Err(BitokuError::InvalidAccount),
    }
}

/// Sets every byte of `dst` to zero.
pub fn zero(dst: &mut [u8])
    ensures
        final(dst)@ == Seq::new(old(dst)@.len(), |i: int| 0u8),
{
    let mut i: usize = 0;
    while i < dst.len()
        invariant
            i <= dst@.len() == old(dst)@.len(),
            forall|k: int| 0 <= k < i ==> dst@[k] == 0u8,
        decreases dst@.len() - i,
    {
        dst[i] = 0;
        i += 1;
    }
    assert(final(dst)@ =~= Seq::new(old(dst)@.len(), |i: int| 0u8));
}

/// The broker's operations on the registry and on request records. Each one
/// checks everything before it writes, so a failed operation leaves the
/// stored bytes as they were.
pub struct Processor;

impl Processor {
    /// Checks that `key` is the registry's address under `program_id`,
    /// returning its bump seed, or `InvalidAccount`.
    pub fn check_registry_account(program_id: &[u8; 32], key: &[u8; 32]) -> (r: Result<
        u8,
        BitokuError,
    >)
        ensures
            is_derived(registry_seeds(), program_id@, key@) ==> r == Ok::<u8, BitokuError>(
                derived_bump(registry_seeds(), program_id@),
            ),
            !is_derived(registry_seeds(), program_id@, key@) ==> r == Err::<u8, BitokuError>(
                BitokuError::InvalidAccount,
            ),
    {
        let mut seeds: Vec<Vec<u8>> = Vec::new();
        let first = bytes_of(&[98u8, 111, 111, 107, 107, 101, 101, 112, 101, 114]);
        assert(first@ =~= registry_seed());
        seeds.push(first);
        assert(seeds.deep_view()[0] =~= registry_seed());
        assert(seeds.deep_view() =~= registry_seeds());
        check_derived(&seeds, program_id, key)
    }

    /// Checks that `key` is the record address of the client whose key is
    /// `payer`, returning its bump seed, or `InvalidAccount`.
    pub fn check_record_account(program_id: &[u8; 32], payer: &[u8; 32], key: &[u8; 32]) -> (r:
        Result<u8, BitokuError>)
        ensures
            is_derived(record_seeds(payer@), program_id@, key@) ==> r == Ok::<u8, BitokuError>(
                derived_bump(record_seeds(payer@), program_id@),
            ),
            !is_derived(record_seeds(payer@), program_id@, key@) ==> r == Err::<u8, BitokuError>(
                BitokuError::InvalidAccount,
            ),
    {
        let mut seeds: Vec<Vec<u8>> = Vec::new();
        let first = bytes_of(&[114u8, 101, 113, 117, 101, 115, 116]);
        assert(first@ =~= record_seed());
        let second = bytes_of(payer.as_slice());
        seeds.push(first);
        seeds.push(second);
        assert(seeds.deep_view()[0] =~= record_seed());
        assert(seeds.deep_view()[1] =~= payer@);
        assert(seeds.deep_view() =~= record_seeds(payer@));
        check_derived(&seeds, program_id, key)
    }

    /// Registers a new client: hands out the next identity, marks it in the
    /// stored registry and writes it into the new client's stored record.
    /// Fails, writing nothing, when the registry or the record bytes cannot
    /// be read, or with `NoAvailableClients` once the counter is at 255.
    pub fn register_client(registry_data: &mut [u8], record_data: &mut [u8]) -> (r: Result<
        u8,
        ProcessError,
    >)
        ensures
            old(registry_data)@.len() != BOOKKEEPER_LEN ==> r == Err::<u8, ProcessError>(
                ProcessError::InvalidAccountData,
            ),
            old(registry_data)@.len() == BOOKKEEPER_LEN ==> match decode_record(
                old(record_data)@,
            ) {
                Err(e) => r == Err::<u8, ProcessError>(e),
                Ok(rec) => match registry_of(old(registry_data)@).allocate_result() {
                    Err(e) => r == Err::<u8, ProcessError>(ProcessError::Bitoku(e)),
                    Ok(id) => {
                        &&& r == Ok::<u8, ProcessError>(id)
                        &&& final(registry_data)@.len() == BOOKKEEPER_LEN
                        &&& registry_of(final(registry_data)@) == registry_of(
                            old(registry_data)@,
                        ).allocated()
                        &&& final(record_data)@ == encode_record(
                            RecordModel { client_id: id, ..rec },
                        ) + old(record_data)@.subrange(
                            encode_record(rec).len() as int,
                            REQUEST_DATA_LEN as int,
                        )
                    },
                },
            },
            r is Err ==> final(registry_data)@ == old(registry_data)@ && final(record_data)@
                == old(record_data)@,
    {
        let mut registry = match BookKeeper::unpack(registry_data) {
            Ok(b) => b,
            Err(e) => return Err(e),
        };
        let mut record = match RequestData::unpack(record_data) {
            Ok(d) => d,
            Err(e) => return Err(e),
        };
        assert(registry_of(old(registry_data)@) == registry@) by {
            assert(registry.status@ =~= old(registry_data)@.subrange(0, 32));
        }
        let id = match registry.allocate() {
            Ok(id) => id,
            Err(e) => return Err(ProcessError::Bitoku(e)),
        };
        record.client_id = id;
        let _ = registry.pack(registry_data);
        let _ = record.pack(record_data);
        proof {
            let b = final(registry_data)@;
            assert(registry_of(b) == registry@) by {
                assert(registry.status@ =~= b.subrange(0, 32));
            }
        }
        Ok(id)
    }

    /// Removes client `client_id`: clears its identity in the stored registry,
    /// zeroes its stored record and hands the record's balance back to the
    /// payer, returning the payer's new balance. Fails, writing nothing, when
    /// the registry bytes cannot be read, with `UnregisteredClient` when the
    /// identity is not registered, and with `Overflow` when the payer's new
    /// balance would not fit.
    pub fn remove_client(
        registry_data: &mut [u8],
        record_data: &mut [u8],
        payer_lamports: u64,
        record_lamports: u64,
        client_id: u8,
    ) -> (r: Result<u64, ProcessError>)
        ensures
            old(registry_data)@.len() != BOOKKEEPER_LEN ==> r == Err::<u64, ProcessError>(
                ProcessError::InvalidAccountData,
            ),
            old(registry_data)@.len() == BOOKKEEPER_LEN && !registry_of(
                old(registry_data)@,
            ).occupied.contains(client_id) ==> r == Err::<u64, ProcessError>(
                ProcessError::Bitoku(BitokuError::UnregisteredClient),
            ),
            old(registry_data)@.len() == BOOKKEEPER_LEN && registry_of(
                old(registry_data)@,
            ).occupied.contains(client_id) && payer_lamports + record_lamports > u64::MAX ==> r
                == Err::<u64, ProcessError>(ProcessError::Bitoku(BitokuError::Overflow)),
            old(registry_data)@.len() == BOOKKEEPER_LEN && registry_of(
                old(registry_data)@,
            ).occupied.contains(client_id) && payer_lamports + record_lamports <= u64::MAX ==> {
                &&& r == Ok::<u64, ProcessError>((payer_lamports + record_lamports) as u64)
                &&& final(registry_data)@.len() == BOOKKEEPER_LEN
                &&& registry_of(final(registry_data)@) == registry_of(
                    old(registry_data)@,
                ).released(client_id)
                &&& final(record_data)@ == Seq::new(old(record_data)@.len(), |i: int| 0u8)
            },
            r is Err ==> final(registry_data)@ == old(registry_data)@ && final(record_data)@
                == old(record_data)@,
    {
        let mut registry = match BookKeeper::unpack(registry_data) {
            Ok(b) => b,
            Err(e) => return Err(e),
        };
        assert(registry_of(old(registry_data)@) == registry@) by {
            assert(registry.status@ =~= old(registry_data)@.subrange(0, 32));
        }
        if !registry.contains(client_id) {
            return Err(ProcessError::Bitoku(BitokuError::UnregisteredClient));
        }
        let balance = match payer_lamports.checked_add(record_lamports) {
            Some(b) => b,
            None => return Err(ProcessError::Bitoku(BitokuError::Overflow)),
        };
        registry.release(client_id);
        let _ = registry.pack(registry_data);
        zero(record_data);
        proof {
            let b = final(registry_data)@;
            assert(registry_of(b) == registry@) by {
                assert(registry.status@ =~= b.subrange(0, 32));
            }
        }
        Ok(balance)
    }

    /// Posts `request` into the stored record of client `client_id` on behalf
    /// of `caller`. Fails, writing nothing, when the record bytes cannot be
    /// read, with `InvalidName` when the request's name is not valid, and with
    /// `ClientMismatch` when the record belongs to another client.
    pub fn send_request(
        record_data: &mut [u8],
        caller: &[u8; 32],
        client_id: u8,
        request: Request,
    ) -> (r: Result<(), ProcessError>)
        ensures
            match decode_record(old(record_data)@) {
                Err(e) => r == Err::<(), ProcessError>(e),
                Ok(rec) => if !valid_name(request@.name()) {
                    r == Err::<(), ProcessError>(ProcessError::Bitoku(BitokuError::InvalidName))
                } else if rec.client_id != client_id {
                    r == Err::<(), ProcessError>(ProcessError::Bitoku(BitokuError::ClientMismatch))
                } else {
                    &&& r == Ok::<(), ProcessError>(())
                    &&& final(record_data)@ == encode_record(
                        RecordModel { client_id, requester: caller@, request: request@ },
                    ) + old(record_data)@.subrange(
                        encode_record(
                            RecordModel { client_id, requester: caller@, request: request@ },
                        ).len() as int,
                        REQUEST_DATA_LEN as int,
                    )
                },
            },
            r is Err ==> final(record_data)@ == old(record_data)@,
    {
        let mut record = match RequestData::unpack(record_data) {
            Ok(d) => d,
            Err(e) => return Err(e),
        };
        let name = request.name();
        if !validate_name(name.as_slice()) {
            return Err(ProcessError::Bitoku(BitokuError::InvalidName));
        }
        if record.client_id != client_id {
            return Err(ProcessError::Bitoku(BitokuError::ClientMismatch));
        }
        record.requester = *caller;
        record.request = request;
        let _ = record.pack(record_data);
        Ok(())
    }
}

} // verus!
