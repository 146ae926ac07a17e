use diem_ledger_app::apdu::{
    apdu_command, menu_step, on_event, transaction_bytes, Command, DataBuffer, Event, Ins,
    LoopStep, MenuAction, MenuPage, StatusWord, DATA_BUFFER_MAX_SIZE, DATA_CHUNK_SIZE,
    SEED_LENGTH, sign_step, SignAction, SignEvent,
};
use diem_ledger_app::crypto::{compress_ed25519_pubkey, BIP32_PATH};
use diem_ledger_app::diem_types::AccountAddress;
use diem_ledger_app::hex::{hex_digit, to_hex};
use diem_ledger_app::review::{
    fields_readable, get_transaction_fields_to_review, TransactionFieldsToReview,
};

fn hex_str(buf: &[u8; 64], n: usize) -> &str {
    std::str::from_utf8(&buf[..n]).unwrap()
}

#[test]
fn to_hex_of_empty_is_all_zero() {
    let h = to_hex(&[]).unwrap();
    assert_eq!(h, [0u8; 64]);
}

#[test]
fn to_hex_writes_lower_case_digits_then_zeros() {
    let h = to_hex(&[0xab, 0x05, 0xff, 0x10]).unwrap();
    assert_eq!(hex_str(&h, 8), "ab05ff10");
    assert!(h[8..].iter().all(|b| *b == 0));
}

#[test]
fn to_hex_takes_at_most_32_bytes() {
    let m: Vec<u8> = (0u8..32).collect();
    let h = to_hex(&m).unwrap();
    assert_eq!(
        hex_str(&h, 64),
        "000102030405060708090a0b0c0d0e0f101112131415161718191a1b1c1d1e1f"
    );
    let long = [0u8; 33];
    assert_eq!(to_hex(&long), Err(()));
}

#[test]
fn to_hex_output_reads_as_utf8() {
    let h = to_hex(&[0xde, 0xad]).unwrap();
    let s = std::str::from_utf8(&h).unwrap();
    assert_eq!(&s[..4], "dead");
}

#[test]
fn to_hex_tells_inputs_apart() {
    assert_ne!(to_hex(&[0x12]).unwrap(), to_hex(&[0x21]).unwrap());
}

#[test]
fn hex_digits_in_both_cases() {
    assert_eq!(hex_digit(0, false), b'0');
    assert_eq!(hex_digit(9, true), b'9');
    assert_eq!(hex_digit(10, false), b'a');
    assert_eq!(hex_digit(15, true), b'F');
}

#[test]
fn instruction_bytes() {
    assert_eq!(Ins::from(2u8), Ins::GetPubkey);
    assert_eq!(Ins::from(3u8), Ins::Sign);
    assert_eq!(Ins::from(4u8), Ins::Menu);
    assert_eq!(Ins::from(0xfeu8), Ins::ShowPrivateKey);
    assert_eq!(Ins::from(0xffu8), Ins::Exit);
    assert_eq!(Ins::from(0u8), Ins::GetPubkey);
    assert_eq!(Ins::from(5u8), Ins::GetPubkey);
}

#[test]
fn command_without_data_is_refused() {
    assert_eq!(apdu_command(0, Ins::Sign), Err(StatusWord::NothingReceived));
    assert_eq!(apdu_command(0, Ins::Exit), Err(StatusWord::NothingReceived));
}

#[test]
fn commands_of_instructions() {
    assert_eq!(apdu_command(5, Ins::GetPubkey), Ok(Command::SendPublicKey));
    assert_eq!(apdu_command(5, Ins::Sign), Ok(Command::ReadSignChunk));
    assert_eq!(apdu_command(5, Ins::Menu), Ok(Command::ShowMenu));
    assert_eq!(apdu_command(5, Ins::ShowPrivateKey), Ok(Command::SendPrivateKey));
    assert_eq!(apdu_command(1, Ins::Exit), Ok(Command::ExitApp));
}

#[test]
fn main_loop_events() {
    assert_eq!(on_event(Event::RightButtonRelease), LoopStep::ExitApp);
    assert_eq!(on_event(Event::Command(Ins::from(3u8))), LoopStep::Handle(Ins::Sign));
    assert_eq!(on_event(Event::Command(Ins::from(9u8))), LoopStep::Handle(Ins::GetPubkey));
    assert_eq!(on_event(Event::Command(Ins::Menu)), LoopStep::Handle(Ins::Menu));
    assert_eq!(on_event(Event::Other), LoopStep::Idle);
}

#[test]
fn menu_pages() {
    assert_eq!(menu_step(MenuPage::Main, 0), (Some(MenuPage::Main), MenuAction::ShowPubkey));
    assert_eq!(menu_step(MenuPage::Main, 1), (Some(MenuPage::Infos), MenuAction::Nothing));
    assert_eq!(menu_step(MenuPage::Main, 2), (None, MenuAction::Nothing));
    assert_eq!(menu_step(MenuPage::Main, 3), (None, MenuAction::ExitApp));
    assert_eq!(menu_step(MenuPage::Main, 7), (Some(MenuPage::Main), MenuAction::Nothing));
    assert_eq!(menu_step(MenuPage::Infos, 0), (Some(MenuPage::Infos), MenuAction::ShowCopyright));
    assert_eq!(menu_step(MenuPage::Infos, 1), (Some(MenuPage::Infos), MenuAction::ShowAuthors));
    assert_eq!(menu_step(MenuPage::Infos, 2), (Some(MenuPage::Main), MenuAction::Nothing));
}

#[test]
fn transaction_follows_the_seed() {
    let mut msg = vec![7u8; SEED_LENGTH];
    msg.extend_from_slice(&[1, 2, 3]);
    assert_eq!(transaction_bytes(&msg), &[1, 2, 3]);
    assert_eq!(transaction_bytes(&[9u8; 32]), &[] as &[u8]);
}

#[test]
fn chunks_are_gathered_in_order() {
    let mut b = DataBuffer::new();
    assert_eq!(b.contents_slice(), &[] as &[u8]);
    assert_eq!(b.read_chunk(0, 0, &[1, 2, 3]), Ok(false));
    assert_eq!(b.read_chunk(1, 0, &[4, 5]), Ok(false));
    assert_eq!(b.read_chunk(2, 1, &[6]), Ok(true));
    assert_eq!(b.contents_slice(), &[1, 2, 3, 4, 5, 6]);
}

#[test]
fn first_chunk_clears_the_buffer() {
    let mut b = DataBuffer::new();
    assert_eq!(b.read_chunk(0, 1, &[9, 9, 9, 9]), Ok(true));
    assert_eq!(b.read_chunk(0, 1, &[1]), Ok(true));
    assert_eq!(b.contents_slice(), &[1]);
    b.clear();
    assert_eq!(b.contents_slice(), &[] as &[u8]);
}

#[test]
fn overflowing_chunk_is_refused_and_kept_up_to_capacity() {
    let mut b = DataBuffer::new();
    let chunk = vec![0xaau8; DATA_CHUNK_SIZE as usize];
    for n in 0..5u8 {
        assert_eq!(b.read_chunk(n, 0, &chunk), Ok(false));
    }
    assert_eq!(b.contents_slice().len(), 1250);
    let last: Vec<u8> = (0u8..40).collect();
    assert_eq!(b.read_chunk(5, 1, &last), Err(StatusWord::BadLen));
    let c = b.contents_slice();
    assert_eq!(c.len(), DATA_BUFFER_MAX_SIZE);
    assert_eq!(&c[1250..], &last[..30]);
}

#[test]
fn exactly_full_buffer_is_accepted() {
    let mut b = DataBuffer::new();
    let full = vec![3u8; DATA_BUFFER_MAX_SIZE];
    assert_eq!(b.read_chunk(0, 1, &full), Ok(true));
    assert_eq!(b.read_chunk(1, 1, &[]), Ok(true));
    assert_eq!(b.read_chunk(1, 1, &[4]), Err(StatusWord::BadLen));
    assert_eq!(b.contents_slice(), &full[..]);
}

#[test]
fn pubkey_is_reversed_y_with_parity_of_x() {
    let mut w = [0u8; 65];
    w[0] = 0x04;
    for i in 0..32 {
        w[1 + i] = 0x40 + i as u8;
        w[33 + i] = i as u8;
    }
    // x ends in 0x5f: odd
    let pk = compress_ed25519_pubkey(&w);
    for i in 0..31 {
        assert_eq!(pk[i], w[64 - i]);
    }
    assert_eq!(pk[0], 31);
    assert_eq!(pk[31], 0x80);
    w[32] = 0x5e;
    let pk = compress_ed25519_pubkey(&w);
    assert_eq!(pk[31], 0x00);
}

#[test]
fn derivation_path() {
    assert_eq!(BIP32_PATH, [0x8000002Cu32; 5]);
    assert_eq!(AccountAddress::LENGTH, 16);
}

fn header(tag: u8, seq: u64) -> Vec<u8> {
    let mut r = vec![0x11u8; 16];
    r.extend_from_slice(&seq.to_le_bytes());
    r.push(tag);
    r
}

fn script_function(module: &[u8], function: &[u8]) -> Vec<u8> {
    let mut r = header(3, 0x0102030405060708);
    r.extend_from_slice(&[
        0x00, 0x01, 0x02, 0x03, 0x04, 0x05, 0x06, 0x07, 0x08, 0x09, 0xab, 0xcd, 0xef, 0x10,
        0x20, 0xff,
    ]);
    r.push(module.len() as u8);
    r.extend_from_slice(module);
    r.push(function.len() as u8);
    r.extend_from_slice(function);
    r
}

#[test]
fn other_payloads_carry_the_sequence_number_only() {
    let r = header(2, 42);
    assert!(fields_readable(&r));
    let f = get_transaction_fields_to_review(&r).unwrap();
    assert_eq!(f.sequence_number(), 42);
    assert_eq!(f.account_address(), None);
    assert_eq!(f.module_name(), None);
    assert_eq!(f.function_name(), None);
}

#[test]
fn sequence_number_is_little_endian() {
    let r = header(0, 0xfedcba9876543210);
    let f = get_transaction_fields_to_review(&r).unwrap();
    assert_eq!(f.sequence_number(), 0xfedcba9876543210);
}

#[test]
fn script_function_fields() {
    let r = script_function(b"DiemAccount", b"peer_to_peer_with_metadata");
    assert!(fields_readable(&r));
    let f = get_transaction_fields_to_review(&r).unwrap();
    assert_eq!(f.sequence_number(), 0x0102030405060708);
    assert_eq!(f.account_address(), Some("00010203040506070809ABCDEF1020FF"));
    assert_eq!(f.module_name(), Some("DiemAccount"));
    assert_eq!(f.function_name(), Some("peer_to_peer_with_metadata"));
}

#[test]
fn empty_names() {
    let r = script_function(b"", b"");
    let f = get_transaction_fields_to_review(&r).unwrap();
    assert_eq!(f.module_name(), Some(""));
    assert_eq!(f.function_name(), Some(""));
}

#[test]
fn long_names_are_cut_at_capacity() {
    let module = vec![b'm'; 60];
    let function = vec![b'f'; 51];
    let r = script_function(&module, &function);
    assert!(fields_readable(&r));
    let f = get_transaction_fields_to_review(&r).unwrap();
    assert_eq!(f.module_name(), Some("m".repeat(50).as_str()));
    assert_eq!(f.function_name(), Some("f".repeat(50).as_str()));
}

#[test]
fn utf8_names() {
    let r = script_function("Zählung".as_bytes(), "größe".as_bytes());
    let f = get_transaction_fields_to_review(&r).unwrap();
    assert_eq!(f.module_name(), Some("Zählung"));
    assert_eq!(f.function_name(), Some("größe"));
}

#[test]
fn unreadable_transactions() {
    assert!(!fields_readable(&[0u8; 24]));
    let mut r = script_function(b"abc", b"def");
    r.pop();
    assert!(!fields_readable(&r));
    let r = script_function(&[0xff], b"def");
    assert!(!fields_readable(&r));
    let r = script_function(b"abc", &[0xc3]);
    assert!(!fields_readable(&r));
    // a two-byte character cut in half by the capacity
    let mut module = vec![b'a'; 49];
    module.extend_from_slice("é".as_bytes());
    let r = script_function(&module, b"x");
    assert!(!fields_readable(&r));
    let r = header(3, 1);
    assert!(!fields_readable(&r));
}

#[test]
fn fields_without_payload() {
    let f = TransactionFieldsToReview::build_transaction_fields(7);
    assert_eq!(f.sequence_number(), 7);
    assert_eq!(f.account_address(), None);
    assert_eq!(f.module_name(), None);
    assert_eq!(f.function_name(), None);
}

#[test]
fn signing_flow_decisions() {
    assert_eq!(sign_step(SignEvent::ChunkRead(false)), SignAction::WaitForChunks);
    assert_eq!(sign_step(SignEvent::ChunkRead(true)), SignAction::ReviewMessage);
    assert_eq!(sign_step(SignEvent::Answered(true)), SignAction::SignMessage);
    assert_eq!(sign_step(SignEvent::Answered(false)), SignAction::Cancel);
}

#[test]
fn sign_only_after_last_chunk() {
    let mut b = DataBuffer::new();
    let r = b.read_chunk(0, 0, &[1, 2]).unwrap();
    assert_eq!(sign_step(SignEvent::ChunkRead(r)), SignAction::WaitForChunks);
    let r = b.read_chunk(1, 1, &[3]).unwrap();
    assert_eq!(sign_step(SignEvent::ChunkRead(r)), SignAction::ReviewMessage);
}

#[test]
fn chunk_in_two_steps() {
    let mut b = DataBuffer::new();
    b.start_chunk(0);
    assert_eq!(b.append_chunk(0, &[1, 2]), Ok(false));
    b.start_chunk(1);
    assert_eq!(b.append_chunk(1, &[3]), Ok(true));
    assert_eq!(b.contents_slice(), &[1, 2, 3]);
    b.start_chunk(0);
    assert_eq!(b.contents_slice(), &[] as &[u8]);
    let big = vec![7u8; DATA_BUFFER_MAX_SIZE + 1];
    assert_eq!(b.append_chunk(1, &big), Err(StatusWord::BadLen));
    assert_eq!(b.contents_slice(), &big[..DATA_BUFFER_MAX_SIZE]);
}

#[test]
fn address_digits_are_upper_case() {
    let mut r = header(3, 0);
    r.extend_from_slice(&[0xab; 16]);
    r.push(1);
    r.push(b'm');
    r.push(1);
    r.push(b'f');
    let f = get_transaction_fields_to_review(&r).unwrap();
    assert_eq!(f.account_address(), Some("ABABABABABABABABABABABABABABABAB"));
}
