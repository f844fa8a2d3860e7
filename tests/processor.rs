use bitoku_agent::error::{BitokuError, ProcessError};
use bitoku_agent::instruction::Request;
use bitoku_agent::processor::Processor;
use bitoku_agent::state::{BookKeeper, RequestData};
use solana_program::pubkey::Pubkey;

fn name_of(s: &str) -> [u8; 128] {
    let mut name = [0u8; 128];
    name[..s.len()].copy_from_slice(s.as_bytes());
    name
}

#[test]
fn end_to_end_register_send_remove() {
    let mut registry = [0u8; 33];
    let mut record = [0u8; 675];

    assert_eq!(Processor::register_client(&mut registry, &mut record), Ok(0));
    let stored = RequestData::unpack(&record).unwrap();
    assert_eq!(stored.client_id, 0);
    assert_eq!(stored.requester, [0u8; 32]);
    assert_eq!(stored.request, Request::CreateBucket { name: [0u8; 128] });
    let book = BookKeeper::unpack(&registry).unwrap();
    assert_eq!(book.next_id, 1);
    assert!(book.contains(0));

    let caller = [7u8; 32];
    let request = Request::CreateBucket { name: name_of("docs") };
    assert_eq!(Processor::send_request(&mut record, &caller, 0, request), Ok(()));
    let stored = RequestData::unpack(&record).unwrap();
    assert_eq!(stored, RequestData { client_id: 0, requester: caller, request });
    assert_eq!(&record[34..38], b"docs");
    assert!(record[38..162].iter().all(|&x| x == 0));

    assert_eq!(Processor::remove_client(&mut registry, &mut record, 10, 5, 0), Ok(15));
    let book = BookKeeper::unpack(&registry).unwrap();
    assert!(!book.contains(0));
    assert_eq!(book.next_id, 1);
    assert!(record.iter().all(|&x| x == 0));
}

#[test]
fn send_request_to_another_clients_record() {
    let mut registry = [0u8; 33];
    let mut record = [0u8; 675];
    Processor::register_client(&mut registry, &mut record).unwrap();
    let before = record;
    let request = Request::OpenFile { name: name_of("f"), file_id: 1 };
    assert_eq!(
        Processor::send_request(&mut record, &[1u8; 32], 3, request),
        Err(ProcessError::Bitoku(BitokuError::ClientMismatch))
    );
    assert_eq!(record, before);
}

#[test]
fn send_request_with_invalid_name() {
    let mut record = [0u8; 675];
    let before = record;
    let request = Request::CloseFile { name: name_of("a b"), file_id: 1 };
    assert_eq!(
        Processor::send_request(&mut record, &[1u8; 32], 0, request),
        Err(ProcessError::Bitoku(BitokuError::InvalidName))
    );
    assert_eq!(record, before);
}

#[test]
fn send_request_keeps_layout_of_set_position() {
    let mut record = [0u8; 675];
    let request = Request::SetPosition { name: name_of("p"), file_id: 2, position: 258 };
    Processor::send_request(&mut record, &[3u8; 32], 0, request).unwrap();
    assert_eq!(record[33], 5);
    assert_eq!(record[162], 2);
    assert_eq!(&record[163..171], &[2, 1, 0, 0, 0, 0, 0, 0]);
    assert_eq!(RequestData::unpack(&record).unwrap().request, request);
}

#[test]
fn register_when_identity_space_is_used_up() {
    let mut registry = [0u8; 33];
    let mut book = BookKeeper::new();
    for _ in 0..255 {
        book.allocate().unwrap();
    }
    book.pack(&mut registry).unwrap();
    let mut record = [0u8; 675];
    let before = registry;
    assert_eq!(
        Processor::register_client(&mut registry, &mut record),
        Err(ProcessError::Bitoku(BitokuError::NoAvailableClients))
    );
    assert_eq!(registry, before);
    assert_eq!(record, [0u8; 675]);
}

#[test]
fn register_with_wrong_sizes() {
    let mut registry = [0u8; 32];
    let mut record = [0u8; 675];
    assert_eq!(
        Processor::register_client(&mut registry, &mut record),
        Err(ProcessError::InvalidAccountData)
    );
    let mut registry = [0u8; 33];
    let mut record = [0u8; 163];
    assert_eq!(
        Processor::register_client(&mut registry, &mut record),
        Err(ProcessError::InvalidAccountData)
    );
    assert_eq!(registry, [0u8; 33]);
}

#[test]
fn remove_unregistered_and_overflow() {
    let mut registry = [0u8; 33];
    let mut record = [1u8; 675];
    assert_eq!(
        Processor::remove_client(&mut registry, &mut record, 0, 0, 0),
        Err(ProcessError::Bitoku(BitokuError::UnregisteredClient))
    );
    let mut fresh = [0u8; 675];
    Processor::register_client(&mut registry, &mut fresh).unwrap();
    let before = registry;
    assert_eq!(
        Processor::remove_client(&mut registry, &mut record, u64::MAX, 1, 0),
        Err(ProcessError::Bitoku(BitokuError::Overflow))
    );
    assert_eq!(registry, before);
    assert_eq!(record, [1u8; 675]);
}

#[test]
fn derived_account_addresses() {
    let program = Pubkey::new_from_array([5u8; 32]);
    let (registry, bump) = Pubkey::find_program_address(&[b"bookkeeper"], &program);
    assert_eq!(
        Processor::check_registry_account(&program.to_bytes(), &registry.to_bytes()),
        Ok(bump)
    );
    assert_eq!(
        Processor::check_registry_account(&program.to_bytes(), &program.to_bytes()),
        Err(BitokuError::InvalidAccount)
    );
    let payer = [9u8; 32];
    let (record, bump) = Pubkey::find_program_address(&[b"request", &payer], &program);
    assert_eq!(
        Processor::check_record_account(&program.to_bytes(), &payer, &record.to_bytes()),
        Ok(bump)
    );
    assert_eq!(
        Processor::check_record_account(&program.to_bytes(), &payer, &registry.to_bytes()),
        Err(BitokuError::InvalidAccount)
    );
}

#[test]
fn test_pack() {
    let mut name: [u8; 128] = [0; 128];
    let bytes = "test".as_bytes();
    name[..bytes.len()].copy_from_slice(bytes);

    let requester = Pubkey::new_unique().to_bytes();
    let src = RequestData {
        client_id: 85,
        requester,
        request: Request::CloseFile { name, file_id: 69 },
    };
    let mut dst = [0u8; 163];

    let res = src.pack(&mut dst);
    assert_eq!(res, Err(ProcessError::InvalidAccountData));
    assert_eq!(dst, [0u8; 163]);

    src.pack_into_slice(&mut dst);
    assert_eq!(dst[0], 85);
    assert_eq!(&dst[1..33], &requester);
    assert_eq!(dst[33], 3);
    assert_eq!(&dst[34..38], b"test");
    assert_eq!(dst[162], 69);
}

#[test]
fn record_unpack_from_longer_slice() {
    let record = RequestData {
        client_id: 4,
        requester: [2u8; 32],
        request: Request::WriteFile { name: name_of("w"), file_id: 1, data: [6u8; 512] },
    };
    let mut dst = [0u8; 700];
    record.pack_into_slice(&mut dst);
    assert_eq!(RequestData::unpack_from_slice(&dst), Ok(record));
    assert_eq!(RequestData::unpack(&dst), Err(ProcessError::InvalidAccountData));
    assert_eq!(RequestData::unpack(&dst[..675]), Ok(record));
    assert_eq!(RequestData::unpack_from_slice(&dst[..674]), Err(ProcessError::InvalidAccountData));
}
