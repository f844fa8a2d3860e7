use bitoku_agent::error::BitokuError;
use bitoku_agent::instruction::{unpack_request, BitokuInstructions, Request};
use bitoku_agent::name::validate_name;

fn name_of(s: &str) -> [u8; 128] {
    let mut name = [0u8; 128];
    name[..s.len()].copy_from_slice(s.as_bytes());
    name
}

fn data_of(fill: u8) -> [u8; 512] {
    let mut data = [0u8; 512];
    for (i, b) in data.iter_mut().enumerate() {
        *b = fill.wrapping_add(i as u8);
    }
    data
}

fn all_requests() -> Vec<Request> {
    vec![
        Request::CreateBucket { name: name_of("bucket") },
        Request::CreateFile { name: name_of("dir/file.txt"), data: data_of(1) },
        Request::WriteFile { name: name_of("a+b"), file_id: 7, data: data_of(200) },
        Request::CloseFile { name: name_of("c"), file_id: 255 },
        Request::DeleteFile { name: name_of("d_1"), file_id: 0 },
        Request::SetPosition { name: name_of("pos"), file_id: 3, position: 0x0102_0304_0506_0708 },
        Request::OpenFile { name: name_of("open-me"), file_id: 9 },
        Request::ReadFile { name: name_of("READ.me"), file_id: 128 },
    ]
}

#[test]
fn test_name_validation() {
    let name = "test".as_bytes();

    let bool = validate_name(&name);

    assert!(bool);
}

#[test]
fn name_validation_cases() {
    assert!(validate_name(b""));
    assert!(validate_name(b"a.b-c_9"));
    assert!(validate_name(b"x/y+z"));
    assert!(!validate_name(b"a b"));
    assert!(!validate_name(&[b'a'; 129]));
    assert!(validate_name(&[b'a'; 128]));
    assert!(validate_name(&[0u8; 128]));
    let mut name = [0xffu8; 128];
    name[..5].copy_from_slice(b"abcde");
    name[5] = 0;
    assert!(validate_name(&name));
    name[2] = b'!';
    assert!(!validate_name(&name));
}

#[test]
fn instruction_round_trip_every_variant() {
    let mut all = vec![
        BitokuInstructions::InitBitoku,
        BitokuInstructions::RegisterClient,
        BitokuInstructions::RemoveClient { client_id: 42 },
    ];
    for (i, request) in all_requests().into_iter().enumerate() {
        all.push(BitokuInstructions::SendRequest { client_id: i as u8, request });
    }
    for ins in all {
        let bytes = ins.pack();
        assert_eq!(BitokuInstructions::unpack(&bytes), Ok(ins));
    }
}

#[test]
fn pack_layout() {
    assert_eq!(BitokuInstructions::InitBitoku.pack(), vec![0]);
    assert_eq!(BitokuInstructions::RegisterClient.pack(), vec![1]);
    assert_eq!(BitokuInstructions::RemoveClient { client_id: 5 }.pack(), vec![2, 5]);
    let ins = BitokuInstructions::SendRequest {
        client_id: 4,
        request: Request::SetPosition { name: name_of("p"), file_id: 6, position: 0x0102_0304_0506_0708 },
    };
    let bytes = ins.pack();
    assert_eq!(bytes.len(), 2 + 1 + 128 + 1 + 8);
    assert_eq!(&bytes[..4], &[3, 4, 5, b'p']);
    assert_eq!(bytes[131], 6);
    assert_eq!(&bytes[132..], &[8, 7, 6, 5, 4, 3, 2, 1]);
    let create = BitokuInstructions::SendRequest {
        client_id: 0,
        request: Request::CreateFile { name: name_of("f"), data: data_of(10) },
    };
    let bytes = create.pack();
    assert_eq!(bytes.len(), 2 + 1 + 128 + 1 + 512);
    assert_eq!(bytes[131], 0);
    assert_eq!(bytes[132], 10);
}

#[test]
fn unpack_errors() {
    assert_eq!(BitokuInstructions::unpack(&[]), Err(BitokuError::InvalidInstructionData));
    assert_eq!(BitokuInstructions::unpack(&[4]), Err(BitokuError::InvalidInstruction));
    assert_eq!(BitokuInstructions::unpack(&[2]), Err(BitokuError::InvalidClientId));
    assert_eq!(BitokuInstructions::unpack(&[3]), Err(BitokuError::InvalidInstructionData));
    assert_eq!(BitokuInstructions::unpack(&[3, 1]), Err(BitokuError::InvalidInstructionData));
    assert_eq!(BitokuInstructions::unpack(&[0, 9, 9]), Ok(BitokuInstructions::InitBitoku));
}

#[test]
fn unpack_request_errors() {
    let mut short = vec![0u8];
    short.extend_from_slice(&[b'a'; 127]);
    assert_eq!(unpack_request(&short), Err(BitokuError::InvalidInstructionData));

    let mut body = vec![8u8];
    body.extend_from_slice(&[b'a'; 129]);
    assert_eq!(unpack_request(&body), Err(BitokuError::InvalidInstruction));

    let mut no_file = vec![3u8];
    no_file.extend_from_slice(&[b'a'; 128]);
    assert_eq!(unpack_request(&no_file), Err(BitokuError::InvalidFileId));

    let mut no_pos = vec![5u8];
    no_pos.extend_from_slice(&[b'a'; 128]);
    no_pos.push(1);
    no_pos.extend_from_slice(&[1, 2, 3]);
    assert_eq!(unpack_request(&no_pos), Err(BitokuError::InvalidPosition));
}

#[test]
fn unpack_request_pads_and_truncates_data() {
    let mut short = vec![1u8];
    short.extend_from_slice(&name_of("f"));
    short.push(0);
    short.extend_from_slice(&[9, 8, 7]);
    let mut expected = [0u8; 512];
    expected[..3].copy_from_slice(&[9, 8, 7]);
    assert_eq!(
        unpack_request(&short),
        Ok(Request::CreateFile { name: name_of("f"), data: expected })
    );

    let mut long = vec![2u8];
    long.extend_from_slice(&name_of("w"));
    long.push(11);
    long.extend_from_slice(&[5u8; 600]);
    assert_eq!(
        unpack_request(&long),
        Ok(Request::WriteFile { name: name_of("w"), file_id: 11, data: [5u8; 512] })
    );

    let mut bare = vec![1u8];
    bare.extend_from_slice(&name_of("g"));
    assert_eq!(
        unpack_request(&bare),
        Ok(Request::CreateFile { name: name_of("g"), data: [0u8; 512] })
    );
}

#[test]
fn request_name_of_every_variant() {
    for request in all_requests() {
        let bytes = BitokuInstructions::SendRequest { client_id: 0, request }.pack();
        assert_eq!(&request.name()[..], &bytes[3..131]);
    }
}

#[test]
fn error_codes() {
    assert_eq!(BitokuError::InvalidInstruction.code(), 0);
    assert_eq!(BitokuError::NoAvailableClients.code(), 2);
    assert_eq!(BitokuError::InvalidAccount.code(), 6);
    assert_eq!(BitokuError::ClientMismatch.code(), 10);
}
