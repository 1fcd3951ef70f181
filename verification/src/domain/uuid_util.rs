//! Identifiers: random version-4 UUIDs, their canonical text, and parsing.
use vstd::prelude::*;

verus! {

/// The lowercase hexadecimal digit for `n` (`0 <= n < 16`).
pub open spec fn hex_digit(n: int) -> char {
    if n < 10 {
        (48 + n) as char
    } else {
        (87 + n) as char
    }
}

/// The `k`-th hexadecimal digit of `v`, counted from the most significant one.
pub open spec fn uuid_nibble(v: u128, k: int) -> int {
    ((v >> ((124 - 4 * k) as u128)) & 0xf) as int
}

/// The 32 lowercase hexadecimal digits of `v`, most significant first.
pub open spec fn uuid_simple_text(v: u128) -> Seq<char> {
    Seq::new(32, |k: int| hex_digit(uuid_nibble(v, k)))
}

/// The canonical text of the UUID whose 128 bits are `v`: lowercase hex digits
/// in groups of 8, 4, 4, 4 and 12, separated by hyphens.
pub open spec fn uuid_hyphenated(v: u128) -> Seq<char> {
    let s = uuid_simple_text(v);
    s.subrange(0, 8) + seq!['-'] + s.subrange(8, 12) + seq!['-'] + s.subrange(12, 16)
        + seq!['-'] + s.subrange(16, 20) + seq!['-'] + s.subrange(20, 32)
}

/// The canonical text of a UUID has 36 characters, with hyphens at
/// positions 8, 13, 18 and 23 and lowercase hexadecimal digits elsewhere.
pub proof fn lemma_uuid_text_shape(v: u128)
    ensures
        uuid_hyphenated(v).len() == 36,
        uuid_hyphenated(v)[8] == '-',
        uuid_hyphenated(v)[13] == '-',
        uuid_hyphenated(v)[18] == '-',
        uuid_hyphenated(v)[23] == '-',
        forall|k: int|
            0 <= k < 36 && k != 8 && k != 13 && k != 18 && k != 23 ==> {
                let c = #[trigger] uuid_hyphenated(v)[k];
                ('0' <= c <= '9') || ('a' <= c <= 'f')
            },
{
    let s = uuid_simple_text(v);
    assert forall|k: int| 0 <= k < 32 implies {
        let c = #[trigger] s[k];
        ('0' <= c <= '9') || ('a' <= c <= 'f')
    } by {
        let n = uuid_nibble(v, k);
        assert(0 <= n < 16) by {
            let sh = (124 - 4 * k) as u128;
            assert((v >> sh) & 0xf <= 0xf) by (bit_vector);
        }
    }
}

/// `v` carries the version-4 (random) marker and the RFC 4122 variant bits.
pub open spec fn is_random_v4(v: u128) -> bool {
    &&& (v >> 76u128) & 0xf == 4
    &&& (v >> 62u128) & 0x3 == 2
}

/// What `uuid::Uuid::parse_str` makes of a text: the UUID's 128 bits, or `None`
/// where it reports an error.
pub uninterp spec fn uuid_parsed(text: Seq<char>) -> Option<u128>;

/// A 128-bit value is determined by its 32 hexadecimal digits.
proof fn lemma_nibbles_determine_value(v: u128, w: u128)
    by (bit_vector)
    requires
            (v >> 124u128) & 0xf == (w >> 124u128) & 0xf,
            (v >> 120u128) & 0xf == (w >> 120u128) & 0xf,
            (v >> 116u128) & 0xf == (w >> 116u128) & 0xf,
            (v >> 112u128) & 0xf == (w >> 112u128) & 0xf,
            (v >> 108u128) & 0xf == (w >> 108u128) & 0xf,
            (v >> 104u128) & 0xf == (w >> 104u128) & 0xf,
            (v >> 100u128) & 0xf == (w >> 100u128) & 0xf,
            (v >> 96u128) & 0xf == (w >> 96u128) & 0xf,
            (v >> 92u128) & 0xf == (w >> 92u128) & 0xf,
            (v >> 88u128) & 0xf == (w >> 88u128) & 0xf,
            (v >> 84u128) & 0xf == (w >> 84u128) & 0xf,
            (v >> 80u128) & 0xf == (w >> 80u128) & 0xf,
            (v >> 76u128) & 0xf == (w >> 76u128) & 0xf,
            (v >> 72u128) & 0xf == (w >> 72u128) & 0xf,
            (v >> 68u128) & 0xf == (w >> 68u128) & 0xf,
            (v >> 64u128) & 0xf == (w >> 64u128) & 0xf,
            (v >> 60u128) & 0xf == (w >> 60u128) & 0xf,
            (v >> 56u128) & 0xf == (w >> 56u128) & 0xf,
            (v >> 52u128) & 0xf == (w >> 52u128) & 0xf,
            (v >> 48u128) & 0xf == (w >> 48u128) & 0xf,
            (v >> 44u128) & 0xf == (w >> 44u128) & 0xf,
            (v >> 40u128) & 0xf == (w >> 40u128) & 0xf,
            (v >> 36u128) & 0xf == (w >> 36u128) & 0xf,
            (v >> 32u128) & 0xf == (w >> 32u128) & 0xf,
            (v >> 28u128) & 0xf == (w >> 28u128) & 0xf,
            (v >> 24u128) & 0xf == (w >> 24u128) & 0xf,
            (v >> 20u128) & 0xf == (w >> 20u128) & 0xf,
            (v >> 16u128) & 0xf == (w >> 16u128) & 0xf,
            (v >> 12u128) & 0xf == (w >> 12u128) & 0xf,
            (v >> 8u128) & 0xf == (w >> 8u128) & 0xf,
            (v >> 4u128) & 0xf == (w >> 4u128) & 0xf,
            (v >> 0u128) & 0xf == (w >> 0u128) & 0xf,
    ensures
        v == w,
{
}

/// Two hexadecimal digits that look alike are the same digit.
proof fn lemma_hex_digit_injective(n: int, m: int)
    requires
        0 <= n < 16,
        0 <= m < 16,
        hex_digit(n) == hex_digit(m),
    ensures
        n == m,
{
    assert(hex_digit(n) as int == (if n < 10 { 48 + n } else { 87 + n }));
    assert(hex_digit(m) as int == (if m < 10 { 48 + m } else { 87 + m }));
}

proof fn lemma_nibble_range(v: u128, k: int)
    requires
        0 <= k < 32,
    ensures
        0 <= uuid_nibble(v, k) < 16,
{
    let sh = (124 - 4 * k) as u128;
    assert((v >> sh) & 0xf <= 0xf) by (bit_vector);
}

/// Different UUIDs have different canonical texts: the text names the UUID.
pub proof fn lemma_uuid_text_injective(v: u128, w: u128)
    requires
        uuid_hyphenated(v) == uuid_hyphenated(w),
    ensures
        v == w,
{
    let a = uuid_simple_text(v);
    let b = uuid_simple_text(w);
    let ha = uuid_hyphenated(v);
    let hb = uuid_hyphenated(w);
    assert forall|k: int| 0 <= k < 32 implies uuid_nibble(v, k) == uuid_nibble(w, k) by {
        let pos = if k < 8 {
            k
        } else if k < 12 {
            k + 1
        } else if k < 16 {
            k + 2
        } else if k < 20 {
            k + 3
        } else {
            k + 4
        };
        assert(ha[pos] == a[k]);
        assert(hb[pos] == b[k]);
        lemma_nibble_range(v, k);
        lemma_nibble_range(w, k);
        lemma_hex_digit_injective(uuid_nibble(v, k), uuid_nibble(w, k));
    }
    assert(uuid_nibble(v, 0) == uuid_nibble(w, 0));
    assert(uuid_nibble(v, 1) == uuid_nibble(w, 1));
    assert(uuid_nibble(v, 2) == uuid_nibble(w, 2));
    assert(uuid_nibble(v, 3) == uuid_nibble(w, 3));
    assert(uuid_nibble(v, 4) == uuid_nibble(w, 4));
    assert(uuid_nibble(v, 5) == uuid_nibble(w, 5));
    assert(uuid_nibble(v, 6) == uuid_nibble(w, 6));
    assert(uuid_nibble(v, 7) == uuid_nibble(w, 7));
    assert(uuid_nibble(v, 8) == uuid_nibble(w, 8));
    assert(uuid_nibble(v, 9) == uuid_nibble(w, 9));
    assert(uuid_nibble(v, 10) == uuid_nibble(w, 10));
    assert(uuid_nibble(v, 11) == uuid_nibble(w, 11));
    assert(uuid_nibble(v, 12) == uuid_nibble(w, 12));
    assert(uuid_nibble(v, 13) == uuid_nibble(w, 13));
    assert(uuid_nibble(v, 14) == uuid_nibble(w, 14));
    assert(uuid_nibble(v, 15) == uuid_nibble(w, 15));
    assert(uuid_nibble(v, 16) == uuid_nibble(w, 16));
    assert(uuid_nibble(v, 17) == uuid_nibble(w, 17));
    assert(uuid_nibble(v, 18) == uuid_nibble(w, 18));
    assert(uuid_nibble(v, 19) == uuid_nibble(w, 19));
    assert(uuid_nibble(v, 20) == uuid_nibble(w, 20));
    assert(uuid_nibble(v, 21) == uuid_nibble(w, 21));
    assert(uuid_nibble(v, 22) == uuid_nibble(w, 22));
    assert(uuid_nibble(v, 23) == uuid_nibble(w, 23));
    assert(uuid_nibble(v, 24) == uuid_nibble(w, 24));
    assert(uuid_nibble(v, 25) == uuid_nibble(w, 25));
    assert(uuid_nibble(v, 26) == uuid_nibble(w, 26));
    assert(uuid_nibble(v, 27) == uuid_nibble(w, 27));
    assert(uuid_nibble(v, 28) == uuid_nibble(w, 28));
    assert(uuid_nibble(v, 29) == uuid_nibble(w, 29));
    assert(uuid_nibble(v, 30) == uuid_nibble(w, 30));
    assert(uuid_nibble(v, 31) == uuid_nibble(w, 31));
    lemma_nibbles_determine_value(v, w);
}

/// The error that `uuid::Uuid::parse_str` reports.
#[verifier::external_type_specification]
#[verifier::external_body]
pub struct ExUuidError(uuid::Error);

/// Why a text could not be read as a UUID.
#[derive(Debug, Clone, Copy, PartialEq, Eq)]
pub enum UuidParseError {
    /// The text is not one of the forms `uuid::Uuid::parse_str` accepts.
    Invalid,
}

/// `bits` with the version nibble set to 4 and the variant bits set to `10`,
/// as `uuid::Builder::from_random_bytes` marks random bytes.
pub open spec fn v4_marked(bits: u128) -> u128 {
    (bits & 0xffff_ffff_ffff_0fff_3fff_ffff_ffff_ffffu128) | 0x0000_0000_0000_4000_8000_0000_0000_0000u128
}

/// Marking any bits gives a version-4 UUID.
pub proof fn lemma_v4_marked_is_random_v4(bits: u128)
    ensures
        is_random_v4(v4_marked(bits)),
{
    assert(((((bits & 0xffff_ffff_ffff_0fff_3fff_ffff_ffff_ffffu128) | 0x0000_0000_0000_4000_8000_0000_0000_0000u128) >> 76u128) & 0xf == 4)
        && ((((bits & 0xffff_ffff_ffff_0fff_3fff_ffff_ffff_ffffu128) | 0x0000_0000_0000_4000_8000_0000_0000_0000u128) >> 62u128) & 0x3 == 2)) by (bit_vector);
}

/// The bits a version-4 UUID takes from its random draw: all but the four
/// version bits and the two variant bits.
pub open spec fn random_part(bits: u128) -> u128 {
    bits & 0xffff_ffff_ffff_0fff_3fff_ffff_ffff_ffffu128
}

/// Two draws give the same UUID exactly when they agree on the random part:
/// marking keeps every drawn bit but the six it sets.
pub proof fn lemma_v4_marked_keeps_random_part(a: u128, b: u128)
    ensures
        (v4_marked(a) == v4_marked(b)) == (random_part(a) == random_part(b)),
{
    assert(((a & 0xffff_ffff_ffff_0fff_3fff_ffff_ffff_ffffu128) | 0x0000_0000_0000_4000_8000_0000_0000_0000u128
        == (b & 0xffff_ffff_ffff_0fff_3fff_ffff_ffff_ffffu128) | 0x0000_0000_0000_4000_8000_0000_0000_0000u128)
        == ((a & 0xffff_ffff_ffff_0fff_3fff_ffff_ffff_ffffu128) == (b & 0xffff_ffff_ffff_0fff_3fff_ffff_ffff_ffffu128)))
        by (bit_vector);
}

/// The identifiers made from two draws are equal exactly when the draws
/// agree on their random part; draws that differ there give different
/// identifiers.
pub proof fn lemma_ids_from_draws(a: u128, b: u128)
    ensures
        (uuid_hyphenated(v4_marked(a)) == uuid_hyphenated(v4_marked(b))) == (random_part(a)
            == random_part(b)),
{
    lemma_v4_marked_keeps_random_part(a, b);
    if uuid_hyphenated(v4_marked(a)) == uuid_hyphenated(v4_marked(b)) {
        lemma_uuid_text_injective(v4_marked(a), v4_marked(b));
    }
}

/// 16 random bytes from the operating system (`getrandom::fill`), read as a
/// big-endian number; `None` where the system's random source fails. The
/// bytes are random, so nothing is claimed of them.
#[verifier::external_body]
pub(crate) fn random_bits() -> Option<u128> {
    let mut bytes = [0u8; 16];
    match getrandom::fill(&mut bytes) {
        Ok(()) => Some(u128::from_be_bytes(bytes)),
        Err(_) => None,
    }
}

/// `r` is an outcome that the system's random source can give: a value that
/// `random_bits` may return. Nothing more is known of such outcomes, so a
/// value drawn there is told apart from one made up elsewhere only by this.
pub closed spec fn random_source_gives(r: Option<u128>) -> bool {
    call_ensures(random_bits, (), r)
}

/// What a call of `random_bits` returned is an outcome of the random source.
pub(crate) proof fn lemma_drawn_from_random_source(r: Option<u128>)
    requires
        call_ensures(random_bits, (), r),
    ensures
        random_source_gives(r),
{
}

/// `uuid::Builder::from_random_bytes` on the big-endian bytes of `bits`,
/// taken by the UUID's 128 bits: the crate's source sets the high nibble of
/// byte 6 to the version 4 and the two high bits of byte 8 to `10`.
#[verifier::external_body]
fn v4_from_random(bits: u128) -> (r: u128)
    ensures
        r == v4_marked(bits),
{
    uuid::Builder::from_random_bytes(bits.to_be_bytes()).into_uuid().as_u128()
}

/// `uuid::Uuid::from_u128(v).to_string()`. `Display` for `Uuid` writes the
/// hyphenated form in lowercase; the contract claims exactly that text.
#[verifier::external_body]
fn hyphenated_text(v: u128) -> (r: String)
    ensures
        r@ == uuid_hyphenated(v),
{
    uuid::Uuid::from_u128(v).to_string()
}

/// `uuid::Uuid::parse_str(s)`, taken by the parsed UUID's 128 bits.
/// The contract names the outcome (`uuid_parsed`) and claims one fact of the
/// crate's parser: the hyphenated lowercase text of any `v` reads back as `v`.
#[verifier::external_body]
fn parse_text(s: &str) -> (r: Result<u128, uuid::Error>)
    ensures
        r is Ok <==> uuid_parsed(s@) is Some,
        r matches Ok(v) ==> uuid_parsed(s@) == Some(v),
        forall|v: u128| s@ == uuid_hyphenated(v) ==> r is Ok && r->Ok_0 == v,
{
    uuid::Uuid::parse_str(s).map(|u| u.as_u128())
}

/// The canonical (hyphenated, lowercase) text of a UUID.
pub fn uuid_to_str(uuid: u128) -> (r: String)
    ensures
        r@ == uuid_hyphenated(uuid),
{
    hyphenated_text(uuid)
}

/// Reads a UUID from its text.
pub fn str_to_uuid(string: &str) -> (r: Result<u128, UuidParseError>)
    ensures
        r matches Ok(v) ==> uuid_parsed(string@) == Some(v),
        r is Err <==> uuid_parsed(string@) is None,
        forall|v: u128| string@ == uuid_hyphenated(v) ==> r == Ok::<u128, UuidParseError>(v),
{
    match parse_text(string) {
        Ok(v) => Ok(v),
        Err(_) => Err(UuidParseError::Invalid),
    }
}

/// The canonical text of the version-4 UUID made from the random `bits`.
pub fn uuid_from_bits(bits: u128) -> (r: String)
    ensures
        r@ == uuid_hyphenated(v4_marked(bits)),
        is_random_v4(v4_marked(bits)),
{
    let v = v4_from_random(bits);
    proof {
        lemma_v4_marked_is_random_v4(bits);
    }
    uuid_to_str(v)
}

/// A fresh random (version 4) UUID, as its canonical text: the UUID made
/// from bits just drawn from the system's random source; `None` exactly where
/// that source failed.
pub fn uuid_generate() -> (r: Option<String>)
    ensures
        r matches Some(t) ==> exists|bits: u128| t@ == uuid_hyphenated(#[trigger] v4_marked(bits)),
        r matches Some(t) ==> exists|bits: u128|
            #![trigger v4_marked(bits)]
            random_source_gives(Some(bits)) && t@ == uuid_hyphenated(v4_marked(bits)),
        r matches Some(t) ==> exists|v: u128| is_random_v4(v) && t@ == uuid_hyphenated(v),
        r is None ==> random_source_gives(None),
{
    let drawn = random_bits();
    proof {
        lemma_drawn_from_random_source(drawn);
    }
    match drawn {
        Some(bits) => {
            let t = uuid_from_bits(bits);
            assert(is_random_v4(v4_marked(bits)) && t@ == uuid_hyphenated(v4_marked(bits)));
            Some(t)
        },
        None => None,
    }
}

} // verus!
