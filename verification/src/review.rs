//! The fields of a raw Diem transaction that the user reviews before
//! signing, read from its BCS bytes.

use vstd::prelude::*;
use vstd::string::StringSliceAdditionalSpecFns;
use vstd::utf8::*;

use crate::bounded::{
    MAX_LENGTH,
    string_as_str,
    string_bytes,
    string_from_str,
    string_new,
    string_push_ascii,
    str_from_utf8,
    vec_as_slice,
    vec_bytes,
    vec_new,
    vec_push,
};
use crate::hex::{hex_digit, hex_encode, upper_digit};

verus! {

/// Bytes of the sender's account address, at the start of a raw transaction.
pub const ACCOUNT_ADDRESS_LENGTH: usize = 16;

/// Bytes of the sequence number, which follows the sender's address.
pub const SEQUENCE_NUMBER_LENGTH: usize = 8;

/// Index of `ScriptFunction` among the variants of `TransactionPayload`.
pub const SCRIPT_FUNCTION_IN_TRANSACTION_PAYLOAD: u8 = 3;

/// The fields shown to the user, as plain values: text fields are the
/// UTF-8 bytes of the strings.
pub struct ReviewFields {
    pub sequence_number: nat,
    pub account_address: Option<Seq<u8>>,
    pub module_name: Option<Seq<u8>>,
    pub function_name: Option<Seq<u8>>,
}

/// The fields of a transaction that the user is asked to review.
#[derive(Debug)]
pub struct TransactionFieldsToReview {
    sequence_number: u64,
    account_address: Option<heapless::String<MAX_LENGTH>>,
    module_name: Option<heapless::String<MAX_LENGTH>>,
    function_name: Option<heapless::String<MAX_LENGTH>>,
}

/// The bytes of an optional string.
pub open spec fn opt_text(o: Option<heapless::String<MAX_LENGTH>>) -> Option<Seq<u8>> {
    match o {
        Some(s) => Some(string_bytes(s)),
        None => None,
    }
}

impl View for TransactionFieldsToReview {
    type V = ReviewFields;

    closed spec fn view(&self) -> ReviewFields {
        ReviewFields {
            sequence_number: self.sequence_number as nat,
            account_address: opt_text(self.account_address),
            module_name: opt_text(self.module_name),
            function_name: opt_text(self.function_name),
        }
    }
}

impl TransactionFieldsToReview {
    /// Fields of a transaction whose payload is not a script function: only
    /// the sequence number is known.
    pub fn build_transaction_fields(sequence_number: u64) -> (res: Self)
        ensures
            res@ == (ReviewFields {
                sequence_number: sequence_number as nat,
                account_address: None,
                module_name: None,
                function_name: None,
            }),
    {
        Self { sequence_number, account_address: None, module_name: None, function_name: None }
    }

    /// The sequence number of the transaction.
    pub fn sequence_number(&self) -> (n: u64)
        ensures
            n as nat == self@.sequence_number,
    {
        self.sequence_number
    }

    /// The sender's address of the called module, in upper-case hex.
    pub fn account_address(&self) -> (s: Option<&str>)
        ensures
            opt_str_bytes(s) == self@.account_address,
    {
        opt_as_str(&self.account_address)
    }

    /// The name of the called module.
    pub fn module_name(&self) -> (s: Option<&str>)
        ensures
            opt_str_bytes(s) == self@.module_name,
    {
        opt_as_str(&self.module_name)
    }

    /// The name of the called function.
    pub fn function_name(&self) -> (s: Option<&str>)
        ensures
            opt_str_bytes(s) == self@.function_name,
    {
        opt_as_str(&self.function_name)
    }
}

/// The bytes of an optional string slice.
pub open spec fn opt_str_bytes(o: Option<&str>) -> Option<Seq<u8>> {
    match o {
        Some(s) => Some(s.spec_bytes()),
        None => None,
    }
}

fn opt_as_str(o: &Option<heapless::String<MAX_LENGTH>>) -> (res: Option<&str>)
    ensures
        opt_str_bytes(res) == opt_text(*o),
{
    match o {
        Some(s) => Some(string_as_str(s)),
        None => None,
    }
}

/// The unsigned number whose little-endian bytes are `s`.
pub open spec fn le_value(s: Seq<u8>) -> nat
    decreases s.len(),
{
    if s.len() == 0 {
        0
    } else {
        s[0] as nat + 256 * le_value(s.drop_first())
    }
}

/// `256` to the power `n`.
pub open spec fn pow256(n: nat) -> nat
    decreases n,
{
    if n == 0 {
        1
    } else {
        256 * pow256((n - 1) as nat)
    }
}

/// A little-endian number of `n` bytes is below `256^n`.
pub proof fn lemma_le_value_bound(s: Seq<u8>)
    ensures
        le_value(s) < pow256(s.len()),
    decreases s.len(),
{
    if s.len() > 0 {
        lemma_le_value_bound(s.drop_first());
    }
}

/// Reads the unsigned 64-bit little-endian number at `start`, as
/// `u64::from_le_bytes` does.
fn read_u64_le(bytes: &[u8], start: usize) -> (x: u64)
    requires
        start + 8 <= bytes@.len(),
    ensures
        x as nat == le_value(bytes@.subrange(start as int, start + 8)),
{
    let mut x: u64 = 0;
    let mut i: usize = 8;
    proof {
        reveal_with_fuel(pow256, 9);
    }
    assert(bytes@.subrange(start + 8, start + 8) =~= Seq::<u8>::empty());
    while i > 0
        invariant
            i <= 8,
            start + 8 <= bytes.len(),
            x as nat == le_value(bytes@.subrange(start + i, start + 8)),
            pow256(7) == 0x100000000000000,
        decreases i,
    {
        i -= 1;
        let ghost rest = bytes@.subrange(start + i + 1, start + 8);
        let ghost cur = bytes@.subrange(start + i, start + 8);
        assert(cur.drop_first() =~= rest);
        proof {
            lemma_le_value_bound(rest);
            if rest.len() < 7 {
                lemma_pow256_monotone(rest.len(), 7);
            }
        }
        x = x * 256 + bytes[start + i] as u64;
    }
    x
}

/// `256^n` grows with `n`.
pub proof fn lemma_pow256_monotone(a: nat, b: nat)
    requires
        a <= b,
    ensures
        pow256(a) <= pow256(b),
    decreases b,
{
    if a < b {
        lemma_pow256_monotone(a, (b - 1) as nat);
    }
}

/// `len` bytes of `r` from `start` on.
pub open spec fn field_bytes(r: Seq<u8>, start: int, len: int) -> Seq<u8> {
    Seq::new(len as nat, |k: int| r[start + k])
}

/// The first `MAX_LENGTH` bytes of `s`: what fits in a field's vector.
pub open spec fn capped(s: Seq<u8>) -> Seq<u8> {
    if s.len() <= MAX_LENGTH {
        s
    } else {
        s.take(MAX_LENGTH as int)
    }
}

/// Copies `len` bytes of `bytes` from `start` on into a vector; the
/// bytes past its capacity are dropped.
fn extract_to_vec(bytes: &[u8], start: usize, len: usize) -> (target: heapless::Vec<
    u8,
    MAX_LENGTH,
>)
    requires
        len > 0 ==> start + len <= bytes.len(),
    ensures
        vec_bytes(target) == capped(field_bytes(bytes@, start as int, len as int)),
{
    let mut target = vec_new();
    let end = start + len;
    for i in start..end
        invariant
            end == start + len,
            len > 0 ==> end <= bytes@.len(),
            vec_bytes(target) == capped(field_bytes(bytes@, start as int, i - start)),
    {
        let ghost before = field_bytes(bytes@, start as int, i - start);
        let ghost after = field_bytes(bytes@, start as int, i + 1 - start);
        assert(after =~= before.push(bytes@[i as int]));
        let _ = vec_push(&mut target, bytes[i]);
        proof {
            if before.len() < MAX_LENGTH {
                assert(capped(after) =~= capped(before).push(bytes@[i as int]));
            } else {
                assert(capped(after) =~= capped(before));
            }
        }
    }
    target
}

/// Reads the bytes of a vector as a string; it unwraps the UTF-8 check,
/// which the precondition makes succeed.
fn encode_to_utf8(target: heapless::Vec<u8, MAX_LENGTH>) -> (s: heapless::String<MAX_LENGTH>)
    requires
        valid_utf8(vec_bytes(target)),
    ensures
        string_bytes(s) == vec_bytes(target),
{
    let bytes = vec_as_slice(&target);
    let function_name_str = str_from_utf8(bytes).unwrap();
    string_from_str(function_name_str)
}

/// Position of the module name's length byte.
pub open spec fn module_len_at() -> int {
    (ACCOUNT_ADDRESS_LENGTH + SEQUENCE_NUMBER_LENGTH + 1 + ACCOUNT_ADDRESS_LENGTH) as int
}

/// Length of the module name.
pub open spec fn module_len(r: Seq<u8>) -> int {
    r[module_len_at()] as int
}

/// Position of the function name's length byte.
pub open spec fn function_len_at(r: Seq<u8>) -> int {
    module_len_at() + 1 + module_len(r)
}

/// Length of the function name.
pub open spec fn function_len(r: Seq<u8>) -> int {
    r[function_len_at(r)] as int
}

/// The payload of `r` is a script function.
pub open spec fn is_script_function(r: Seq<u8>) -> bool {
    r[(ACCOUNT_ADDRESS_LENGTH + SEQUENCE_NUMBER_LENGTH) as int]
        == SCRIPT_FUNCTION_IN_TRANSACTION_PAYLOAD
}

/// The module name as stored: at most `MAX_LENGTH` of its bytes.
pub open spec fn module_name_bytes(r: Seq<u8>) -> Seq<u8> {
    capped(field_bytes(r, module_len_at() + 1, module_len(r)))
}

/// The function name as stored: at most `MAX_LENGTH` of its bytes.
pub open spec fn function_name_bytes(r: Seq<u8>) -> Seq<u8> {
    capped(field_bytes(r, function_len_at(r) + 1, function_len(r)))
}

/// The inputs on which the fields can be read: every byte that is read is
/// there, and both names, as stored, are valid UTF-8.
pub open spec fn review_readable(r: Seq<u8>) -> bool {
    &&& r.len() >= ACCOUNT_ADDRESS_LENGTH + SEQUENCE_NUMBER_LENGTH + 1
    &&& is_script_function(r) ==> {
        &&& r.len() > module_len_at()
        &&& r.len() > function_len_at(r)
        &&& r.len() >= function_len_at(r) + 1 + function_len(r)
        &&& valid_utf8(module_name_bytes(r))
        &&& valid_utf8(function_name_bytes(r))
    }
}

/// The fields read from `r`: the little-endian sequence number after the
/// sender's address and, for a script function, the module's address in
/// upper-case hex and the two length-prefixed names.
pub open spec fn review_of(r: Seq<u8>) -> ReviewFields {
    let seq_start = ACCOUNT_ADDRESS_LENGTH as int;
    let sequence_number = le_value(r.subrange(seq_start, seq_start + SEQUENCE_NUMBER_LENGTH));
    if is_script_function(r) {
        let addr_start = (ACCOUNT_ADDRESS_LENGTH + SEQUENCE_NUMBER_LENGTH + 1) as int;
        ReviewFields {
            sequence_number,
            account_address: Some(
                hex_encode(r.subrange(addr_start, addr_start + ACCOUNT_ADDRESS_LENGTH), true),
            ),
            module_name: Some(module_name_bytes(r)),
            function_name: Some(function_name_bytes(r)),
        }
    } else {
        ReviewFields { sequence_number, account_address: None, module_name: None, function_name: None }
    }
}

/// Writes `bytes` in upper-case hex into a new string.
fn upper_hex_string(bytes: &[u8]) -> (s: heapless::String<MAX_LENGTH>)
    requires
        2 * bytes@.len() <= MAX_LENGTH,
    ensures
        string_bytes(s) == hex_encode(bytes@, true),
{
    let mut s = string_new();
    for k in 0..bytes.len()
        invariant
            2 * bytes@.len() <= MAX_LENGTH,
            string_bytes(s) == hex_encode(bytes@.take(k as int), true),
    {
        let b = bytes[k];
        assert(b >> 4 == b / 16 && b & 0xf == b % 16) by (bit_vector);
        let high = hex_digit(b >> 4, true);
        let low = hex_digit(b & 0xf, true);
        let _ = string_push_ascii(&mut s, high);
        let _ = string_push_ascii(&mut s, low);
        let ghost prev = bytes@.take(k as int);
        let ghost next = bytes@.take(k + 1);
        assert(next =~= prev.push(b));
        assert forall|j: int| 0 <= j < 2 * prev.len() implies #[trigger] hex_encode(next, true)[j]
            == hex_encode(prev, true)[j] by {
            assert(j / 2 < prev.len());
        }
        assert((2 * k) / 2 == k && (2 * k + 1) / 2 == k && (2 * k) % 2 == 0 && (2 * k + 1) % 2
            == 1);
        assert(hex_encode(next, true) =~= hex_encode(prev, true).push(
            upper_digit(b as int / 16),
        ).push(upper_digit(b as int % 16)));
    }
    assert(bytes@.take(bytes@.len() as int) =~= bytes@);
    s
}

/// Extracts the fields to review from the BCS bytes of a raw transaction.
/// Only a script-function payload has names; for any other the fields hold
/// the sequence number alone. Outside `review_readable` the fields cannot
/// be read (a read past the end, or a name that is not UTF-8): the
/// precondition leaves those inputs out, and `fields_readable` checks it.
pub fn get_transaction_fields_to_review(raw_txn: &[u8]) -> (res: Result<
    TransactionFieldsToReview,
    (),
>)
    requires
        review_readable(raw_txn@),
    ensures
        res is Ok,
        res matches Ok(fields) ==> fields@ == review_of(raw_txn@),
{
    let mut moving_index: usize = ACCOUNT_ADDRESS_LENGTH;
    let sequence_number = read_u64_le(raw_txn, moving_index);
    moving_index += SEQUENCE_NUMBER_LENGTH;
    let index_in_enum = raw_txn[moving_index];
    moving_index += 1;
    if index_in_enum == SCRIPT_FUNCTION_IN_TRANSACTION_PAYLOAD {
        let account_address_byte_array = extract_to_vec(
            raw_txn,
            moving_index,
            ACCOUNT_ADDRESS_LENGTH,
        );
        moving_index += ACCOUNT_ADDRESS_LENGTH;
        assert(field_bytes(raw_txn@, 25, 16) =~= raw_txn@.subrange(25, 41));
        let account_address_str = upper_hex_string(vec_as_slice(&account_address_byte_array));

        let module_name_length: usize = raw_txn[moving_index] as usize;
        moving_index += 1;
        let module_name_vec = extract_to_vec(raw_txn, moving_index, module_name_length);
        let module_name_str = encode_to_utf8(module_name_vec);
        moving_index += module_name_length;

        let function_name_length = raw_txn[moving_index] as usize;
        moving_index += 1;
        let function_name_vec = extract_to_vec(raw_txn, moving_index, function_name_length);
        let function_name_str = encode_to_utf8(function_name_vec);

        let fields = TransactionFieldsToReview {
            account_address: Some(account_address_str),
            module_name: Some(module_name_str),
            function_name: Some(function_name_str),
            sequence_number,
        };
        Ok(fields)
    } else {
        let fields = TransactionFieldsToReview::build_transaction_fields(sequence_number);
        Ok(fields)
    }
}

/// Whether `bytes` are valid UTF-8.
fn is_utf8(bytes: &[u8]) -> (b: bool)
    ensures
        b == valid_utf8(bytes@),
{
    match str_from_utf8(bytes) {
        Ok(_) => true,
        Err(_) => false,
    }
}

/// Whether the fields of `raw_txn` can be read: this is the precondition
/// of `get_transaction_fields_to_review`, checked.
pub fn fields_readable(raw_txn: &[u8]) -> (b: bool)
    ensures
        b == review_readable(raw_txn@),
{
    let n = raw_txn.len();
    if n < ACCOUNT_ADDRESS_LENGTH + SEQUENCE_NUMBER_LENGTH + 1 {
        return false;
    }
    if raw_txn[ACCOUNT_ADDRESS_LENGTH + SEQUENCE_NUMBER_LENGTH]
        != SCRIPT_FUNCTION_IN_TRANSACTION_PAYLOAD {
        return true;
    }
    let module_at: usize = ACCOUNT_ADDRESS_LENGTH + SEQUENCE_NUMBER_LENGTH + 1
        + ACCOUNT_ADDRESS_LENGTH;
    if n <= module_at {
        return false;
    }
    let module_len = raw_txn[module_at] as usize;
    let function_at = module_at + 1 + module_len;
    if n <= function_at {
        return false;
    }
    let function_len = raw_txn[function_at] as usize;
    if n < function_at + 1 + function_len {
        return false;
    }
    let module_kept = if module_len <= MAX_LENGTH {
        module_len
    } else {
        MAX_LENGTH
    };
    let function_kept = if function_len <= MAX_LENGTH {
        function_len
    } else {
        MAX_LENGTH
    };
    let module_name = vstd::slice::slice_subrange(raw_txn, module_at + 1, module_at + 1 + module_kept);
    let function_name = vstd::slice::slice_subrange(
        raw_txn,
        function_at + 1,
        function_at + 1 + function_kept,
    );
    assert(module_name@ =~= module_name_bytes(raw_txn@));
    assert(function_name@ =~= function_name_bytes(raw_txn@));
    is_utf8(module_name) && is_utf8(function_name)
}

/// The low `n` bytes of `x`, least significant first: for `n == 8` and a
/// `u64`, what `u64::to_le_bytes` gives.
pub open spec fn le_bytes(x: nat, n: nat) -> Seq<u8>
    decreases n,
{
    if n == 0 {
        Seq::<u8>::empty()
    } else {
        seq![(x % 256) as u8] + le_bytes(x / 256, (n - 1) as nat)
    }
}

/// Reading back the low `n` bytes of `x` gives `x` modulo `256^n`.
pub proof fn lemma_le_value_of_le_bytes(x: nat, n: nat)
    ensures
        le_bytes(x, n).len() == n,
        le_value(le_bytes(x, n)) == x % pow256(n),
    decreases n,
{
    if n > 0 {
        let m = (n - 1) as nat;
        lemma_le_value_of_le_bytes(x / 256, m);
        let s = le_bytes(x, n);
        assert(s.drop_first() =~= le_bytes(x / 256, m));
        assert(pow256(m) > 0) by {
            lemma_pow256_positive(m);
        }
        vstd::arithmetic::div_mod::lemma_mod_breakdown(x as int, 256, pow256(m) as int);
    }
}

/// `256^n` is positive.
pub proof fn lemma_pow256_positive(n: nat)
    ensures
        pow256(n) > 0,
    decreases n,
{
    if n > 0 {
        lemma_pow256_positive((n - 1) as nat);
    }
}

/// A transaction that carries the little-endian bytes of `x` after the
/// sender's address is reviewed with sequence number `x`.
pub proof fn lemma_sequence_number_roundtrip(r: Seq<u8>, x: u64)
    requires
        r.len() >= ACCOUNT_ADDRESS_LENGTH + SEQUENCE_NUMBER_LENGTH + 1,
        r.subrange(16, 24) == le_bytes(x as nat, 8),
    ensures
        review_of(r).sequence_number == x,
{
    lemma_le_value_of_le_bytes(x as nat, 8);
    reveal_with_fuel(pow256, 9);
    assert(pow256(8) == 0x1_0000_0000_0000_0000);
    vstd::arithmetic::div_mod::lemma_small_mod(x as nat, pow256(8));
}

/// The little-endian number of 8 bytes, term by term.
pub proof fn lemma_le_value_8(s: Seq<u8>)
    requires
        s.len() == 8,
    ensures
        le_value(s) == s[0] + 0x100 * s[1] + 0x1_0000 * s[2] + 0x100_0000 * s[3] + 0x1_0000_0000
            * s[4] + 0x100_0000_0000 * s[5] + 0x1_0000_0000_0000 * s[6] + 0x100_0000_0000_0000
            * s[7],
{
    let s1 = s.drop_first();
    let s2 = s1.drop_first();
    let s3 = s2.drop_first();
    let s4 = s3.drop_first();
    let s5 = s4.drop_first();
    let s6 = s5.drop_first();
    let s7 = s6.drop_first();
    let s8 = s7.drop_first();
    assert(s8.len() == 0);
    assert(le_value(s8) == 0);
    assert(le_value(s7) == s[7] + 256 * le_value(s8));
    assert(le_value(s6) == s[6] + 256 * le_value(s7));
    assert(le_value(s5) == s[5] + 256 * le_value(s6));
    assert(le_value(s4) == s[4] + 256 * le_value(s5));
    assert(le_value(s3) == s[3] + 256 * le_value(s4));
    assert(le_value(s2) == s[2] + 256 * le_value(s3));
    assert(le_value(s1) == s[1] + 256 * le_value(s2));
    assert(le_value(s) == s[0] + 256 * le_value(s1));
}

/// What review shows of a readable transaction `r`, stated over its bytes:
/// the sequence number is bytes 16 to 23, little-endian. When byte 24 (the
/// payload's variant) is 3, a script function, the address is 32 upper-case
/// hex digits of bytes 25 to 40, high nibble first; the module name is the
/// `r[41]` bytes after byte 41 and the function name the `r[42 + r[41]]`
/// bytes after that length byte, each cut at 50 bytes. For any other
/// variant there is no address and no name.
pub proof fn lemma_review_fields(r: Seq<u8>)
    requires
        review_readable(r),
    ensures
        review_of(r).sequence_number == r[16] + 0x100 * r[17] + 0x1_0000 * r[18] + 0x100_0000
            * r[19] + 0x1_0000_0000 * r[20] + 0x100_0000_0000 * r[21] + 0x1_0000_0000_0000 * r[22]
            + 0x100_0000_0000_0000 * r[23],
        r[24] != 3 ==> review_of(r).account_address is None,
        r[24] != 3 ==> review_of(r).module_name is None,
        r[24] != 3 ==> review_of(r).function_name is None,
        r[24] == 3 ==> review_of(r).account_address is Some,
        r[24] == 3 ==> review_of(r).account_address.unwrap().len() == 32,
        r[24] == 3 ==> forall|i: int|
            0 <= i < 16 ==> {
                let hi = #[trigger] r[25 + i] / 16;
                let lo = r[25 + i] % 16;
                let a = review_of(r).account_address.unwrap();
                &&& (hi < 10 ==> a[2 * i] == 48 + hi)
                &&& (hi >= 10 ==> a[2 * i] == 55 + hi)
                &&& (lo < 10 ==> a[2 * i + 1] == 48 + lo)
                &&& (lo >= 10 ==> a[2 * i + 1] == 55 + lo)
            },
        r[24] == 3 ==> review_of(r).module_name == Some(
            r.subrange(42, 42 + (if r[41] <= 50 {
                r[41] as int
            } else {
                50
            })),
        ),
        r[24] == 3 ==> review_of(r).function_name == Some(
            r.subrange(
                43 + r[41],
                43 + r[41] + (if r[42 + r[41]] <= 50 {
                    r[42 + r[41]] as int
                } else {
                    50
                }),
            ),
        ),
{
    lemma_le_value_8(r.subrange(16, 24));
    if r[24] == 3 {
        let addr = r.subrange(25, 41);
        let a = review_of(r).account_address.unwrap();
        assert(a == hex_encode(addr, true));
        assert forall|i: int| 0 <= i < 16 implies {
            let hi = #[trigger] r[25 + i] / 16;
            let lo = r[25 + i] % 16;
            &&& (hi < 10 ==> a[2 * i] == 48 + hi)
            &&& (hi >= 10 ==> a[2 * i] == 55 + hi)
            &&& (lo < 10 ==> a[2 * i + 1] == 48 + lo)
            &&& (lo >= 10 ==> a[2 * i + 1] == 55 + lo)
        } by {
            assert((2 * i) / 2 == i && (2 * i + 1) / 2 == i && (2 * i) % 2 == 0 && (2 * i + 1)
                % 2 == 1);
            assert(addr[i] == r[25 + i]);
        }
        let m = r[41] as int;
        let f = r[42 + m] as int;
        assert(module_name_bytes(r) =~= r.subrange(42, 42 + (if m <= 50 {
            m
        } else {
            50
        })));
        assert(function_name_bytes(r) =~= r.subrange(43 + m, 43 + m + (if f <= 50 {
            f
        } else {
            50
        })));
    }
}

/// Bytes after the function name are not read: a readable transaction
/// stays readable, with the same fields, whatever follows it (the type
/// arguments, arguments, gas, expiration and chain id of a real one).
pub proof fn lemma_readable_extends(r: Seq<u8>, rest: Seq<u8>)
    requires
        review_readable(r),
    ensures
        review_readable(r + rest),
        review_of(r + rest) == review_of(r),
{
    let x = r + rest;
    assert(x.subrange(16, 24) =~= r.subrange(16, 24));
    assert(x[24] == r[24]);
    if r[24] == 3 {
        assert(x[41] == r[41]);
        assert(x[function_len_at(r)] == r[function_len_at(r)]);
        assert(module_name_bytes(x) =~= module_name_bytes(r));
        assert(function_name_bytes(x) =~= function_name_bytes(r));
        assert(x.subrange(25, 41) =~= r.subrange(25, 41));
    }
}

/// A transaction whose payload is not a script function (byte 24 is not 3)
/// is always readable once its 25 header bytes are there, and is reviewed
/// with its sequence number alone.
pub proof fn lemma_other_payloads(r: Seq<u8>)
    requires
        r.len() >= 25,
        r[24] != 3,
    ensures
        review_readable(r),
        review_of(r).account_address is None,
        review_of(r).module_name is None,
        review_of(r).function_name is None,
{
}

/// When the fields of `r` can be read, over its bytes: the 25 header bytes
/// are there, and for a script function (byte 24 is 3) so are the module
/// name's length byte (41), the module name, the function name's length
/// byte and the function name; and the first 50 bytes of each name, the
/// part that is kept, are valid UTF-8.
pub proof fn lemma_readable_exactly(r: Seq<u8>)
    ensures
        review_readable(r) <==> {
            &&& r.len() >= 25
            &&& r[24] == 3 ==> {
                let m = r[41] as int;
                let f = r[42 + m] as int;
                &&& r.len() >= 42
                &&& r.len() >= 43 + m
                &&& r.len() >= 43 + m + f
                &&& valid_utf8(r.subrange(42, 42 + (if m <= 50 {
                    m
                } else {
                    50
                })))
                &&& valid_utf8(r.subrange(43 + m, 43 + m + (if f <= 50 {
                    f
                } else {
                    50
                })))
            }
        },
{
    if r.len() >= 43 + r[41] as int && r.len() >= 25 && r[24] == 3 {
        let m = r[41] as int;
        let f = r[42 + m] as int;
        assert(module_name_bytes(r) =~= r.subrange(42, 42 + (if m <= 50 {
            m
        } else {
            50
        })));
        if r.len() >= 43 + m + f {
            assert(function_name_bytes(r) =~= r.subrange(43 + m, 43 + m + (if f <= 50 {
                f
            } else {
                50
            })));
        }
    }
}

} // verus!
