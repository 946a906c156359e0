//! Layout of the payload images the loader boots from: the `apps.bin` image
//! with its 8-byte size prefix, and the packed image with an `AppHeader`.

use vstd::prelude::*;

verus! {

/// Size of a payload image: 32 MiB.
pub const IMAGE_SIZE: usize = 33554432;

/// The byte of `x` at little-endian position `j`.
pub open spec fn le_byte(x: u64, j: int) -> u8 {
    ((x >> ((8 * j) as u64)) & 0xffu64) as u8
}

/// The 8-byte little-endian encoding of `x`.
pub open spec fn le_bytes(x: u64) -> Seq<u8> {
    Seq::new(8, |j: int| le_byte(x, j))
}

/// The value of 8 bytes read as a little-endian `u64`.
pub open spec fn le_value(b: Seq<u8>) -> u64 {
    (b[0] as u64) | ((b[1] as u64) << 8u64) | ((b[2] as u64) << 16u64) | ((b[3] as u64) << 24u64)
        | ((b[4] as u64) << 32u64) | ((b[5] as u64) << 40u64) | ((b[6] as u64) << 48u64) | ((
    b[7] as u64) << 56u64)
}

/// The ASCII byte of the lower-case hex digit for `v` (below 16).
pub open spec fn hex_digit_byte(v: u64) -> u8 {
    if v < 10 {
        (48 + v) as u8
    } else {
        (87 + v) as u8
    }
}

/// The digit at position `i` (0 = most significant) of `x` written as 16 hex digits.
pub open spec fn hex_nibble(x: u64, i: int) -> u64 {
    (x >> ((60 - 4 * i) as u64)) & 0xfu64
}

/// `x` written as exactly 16 lower-case ASCII hex digits, most significant
/// first, as `format!("{:016x}", x)` writes it.
pub open spec fn hex16(x: u64) -> Seq<u8> {
    Seq::new(16, |i: int| hex_digit_byte(hex_nibble(x, i)))
}

/// Whether `b` is an ASCII hex digit of either case.
pub open spec fn is_hex_byte(b: u8) -> bool {
    (48 <= b <= 57) || (65 <= b <= 70) || (97 <= b <= 102)
}

/// The value of the ASCII hex digit `b`.
pub open spec fn hex_value(b: u8) -> int {
    if 48 <= b <= 57 {
        b - 48
    } else if 65 <= b <= 70 {
        b - 55
    } else {
        b - 87
    }
}

/// The error type of `hex::decode`, carried through without looking inside.
#[verifier::external_type_specification]
#[verifier::external_body]
pub struct ExFromHexError(hex::FromHexError);

/// `hex::decode`: succeeds exactly when the input has even length and holds
/// only hex digits (either case); then each output byte is the pair of digits
/// at twice its index, high digit first.
#[verifier::external_body]
fn hex_decode(data: &[u8]) -> (r: Result<Vec<u8>, hex::FromHexError>)
    ensures
        r is Ok <==> (data@.len() % 2 == 0 && forall|i: int|
            0 <= i < data@.len() ==> is_hex_byte(#[trigger] data@[i])),
        r matches Ok(v) ==> {
            &&& v@.len() * 2 == data@.len()
            &&& forall|i: int|
                0 <= i < v@.len() ==> #[trigger] v@[i] == hex_value(data@[2 * i]) * 16
                    + hex_value(data@[2 * i + 1])
        },
{
    hex::decode(data)
}

proof fn lemma_hex_digit_value(v: u64)
    requires
        v < 16,
    ensures
        is_hex_byte(hex_digit_byte(v)),
        hex_value(hex_digit_byte(v)) == v,
{
}

/// `x` as 16 lower-case ASCII hex digits.
fn lower_hex_16(x: u64) -> (r: Vec<u8>)
    ensures
        r@ == hex16(x),
{
    let mut r: Vec<u8> = Vec::new();
    let mut i: u64 = 0;
    while i < 16
        invariant
            i <= 16,
            r@.len() == i,
            forall|k: int| 0 <= k < i ==> #[trigger] r@[k] == hex_digit_byte(hex_nibble(x, k)),
        decreases 16 - i,
    {
        let shift: u64 = 60 - 4 * i;
        let v = (x >> shift) & 0xf;
        assert(v == hex_nibble(x, i as int));
        assert(v < 16) by (bit_vector)
            requires
                v == (x >> shift) & 0xf,
        ;
        let d: u8 = if v < 10 {
            (48 + v) as u8
        } else {
            (87 + v) as u8
        };
        r.push(d);
        i += 1;
    }
    assert(r@ =~= hex16(x));
    r
}

proof fn lemma_nibble_pair(x: u64, j: u64)
    requires
        j < 8,
    ensures
        ((x >> (8 * j + 4)) & 0xf) * 16 + ((x >> (8 * j)) & 0xf) == (x >> (8 * j)) & 0xff,
{
    assert(((x >> (8 * j + 4)) & 0xf) * 16 + ((x >> (8 * j)) & 0xf) == (x >> (8 * j)) & 0xff)
        by (bit_vector)
        requires
            j < 8,
    ;
}

proof fn lemma_nibble_small(x: u64, i: int)
    requires
        0 <= i < 16,
    ensures
        hex_nibble(x, i) < 16,
{
    let s = (60 - 4 * i) as u64;
    assert((x >> s) & 0xfu64 < 16) by (bit_vector);
}

/// The 8 little-endian bytes of `x`: written as 16 hex digits, decoded
/// pairwise with `hex::decode`, and reversed.
pub fn size_prefix(x: u64) -> (r: Vec<u8>)
    ensures
        r@ == le_bytes(x),
{
    let text = lower_hex_16(x);
    let digits = text.as_slice();
    proof {
        assert forall|i: int| 0 <= i < 16 implies is_hex_byte(#[trigger] digits@[i]) && hex_value(
            digits@[i],
        ) == hex_nibble(x, i) by {
            lemma_nibble_small(x, i);
            lemma_hex_digit_value(hex_nibble(x, i));
        }
    }
    let decoded = match hex_decode(digits) {
        Ok(v) => v,
        Err(_) => {
            proof {
                assert(false);
            }
            Vec::new()
        },
    };
    let mut r: Vec<u8> = Vec::new();
    let mut j: usize = 0;
    while j < 8
        invariant
            decoded@.len() == 8,
            digits@.len() == 16,
            j <= 8,
            r@.len() == j,
            forall|i: int| 0 <= i < 16 ==> hex_value(#[trigger] digits@[i]) == hex_nibble(x, i),
            forall|i: int|
                0 <= i < 8 ==> #[trigger] decoded@[i] == hex_value(digits@[2 * i]) * 16
                    + hex_value(digits@[2 * i + 1]),
            forall|k: int| 0 <= k < j ==> #[trigger] r@[k] == le_byte(x, k),
        decreases 8 - j,
    {
        let b = decoded[7 - j];
        proof {
            let m = 7 - j as int;
            assert(decoded@[m] == hex_value(digits@[2 * m]) * 16 + hex_value(digits@[2 * m + 1]));
            assert(hex_nibble(x, 2 * m) == (x >> ((8 * j + 4) as u64)) & 0xf);
            assert(hex_nibble(x, 2 * m + 1) == (x >> ((8 * j) as u64)) & 0xf);
            lemma_nibble_pair(x, j as u64);
        }
        r.push(b);
        j += 1;
    }
    assert(r@ =~= le_bytes(x));
    r
}

/// Appends the bytes of `src` to `dst`.
fn push_all(dst: &mut Vec<u8>, src: &[u8])
    ensures
        final(dst)@ == old(dst)@ + src@,
{
    let mut k: usize = 0;
    while k < src.len()
        invariant
            k <= src@.len(),
            dst@ == old(dst)@ + src@.subrange(0, k as int),
        decreases src.len() - k,
    {
        dst.push(src[k]);
        k += 1;
        assert(src@.subrange(0, k as int) =~= src@.subrange(0, k - 1) + seq![src@[k - 1]]);
    }
    assert(src@.subrange(0, k as int) =~= src@);
}

/// Pads `dst` with zero bytes up to length `len`.
fn pad_zeros(dst: &mut Vec<u8>, len: usize)
    ensures
        final(dst)@.len() == if old(dst)@.len() < len { len as nat } else { old(dst)@.len() },
        forall|i: int| 0 <= i < old(dst)@.len() ==> #[trigger] final(dst)@[i] == old(dst)@[i],
        forall|i: int| old(dst)@.len() <= i < final(dst)@.len() ==> #[trigger] final(dst)@[i] == 0,
{
    while dst.len() < len
        invariant
            old(dst)@.len() <= dst@.len(),
            dst@.len() <= len || dst@.len() == old(dst)@.len(),
            forall|i: int| 0 <= i < old(dst)@.len() ==> #[trigger] dst@[i] == old(dst)@[i],
            forall|i: int| old(dst)@.len() <= i < dst@.len() ==> #[trigger] dst@[i] == 0,
        decreases len - dst@.len(),
    {
        dst.push(0u8);
    }
}

/// Length of an image holding `n` bytes of content: 32 MiB, or more when
/// the content does not fit.
pub open spec fn image_len(n: int) -> int {
    if n < IMAGE_SIZE {
        IMAGE_SIZE as int
    } else {
        n
    }
}

/// The `apps.bin` image for an ELF application: the ELF's length as 8
/// little-endian bytes, then the ELF, then zero bytes up to the image length.
pub open spec fn bin_image(elf: Seq<u8>) -> Seq<u8> {
    Seq::new(
        image_len(elf.len() + 8int) as nat,
        |i: int|
            if i < 8 {
                le_bytes(elf.len() as u64)[i]
            } else if i < 8 + elf.len() {
                elf[i - 8]
            } else {
                0u8
            },
    )
}

/// Builds the `apps.bin` image that boots one ELF application.
pub fn generate_bin(elf: &[u8]) -> (r: Vec<u8>)
    requires
        elf@.len() + 8 <= usize::MAX,
    ensures
        r@ == bin_image(elf@),
{
    let prefix = size_prefix(elf.len() as u64);
    let mut r: Vec<u8> = Vec::new();
    push_all(&mut r, prefix.as_slice());
    push_all(&mut r, elf);
    pad_zeros(&mut r, IMAGE_SIZE);
    assert(r@ =~= bin_image(elf@));
    r
}

/// Reading an `apps.bin` image back gives what it was made from: its first
/// 8 bytes, read as a little-endian number, are the ELF's length, and the
/// ELF follows them unchanged.
pub proof fn law_generate_bin_reads_back(elf: Seq<u8>)
    requires
        elf.len() + 8 <= usize::MAX,
    ensures
        le_value(bin_image(elf).subrange(0, 8)) == elf.len(),
        bin_image(elf).subrange(8, 8 + elf.len() as int) == elf,
        bin_image(elf).len() >= IMAGE_SIZE,
{
    law_le_roundtrip(elf.len() as u64);
    assert(bin_image(elf).subrange(0, 8) =~= le_bytes(elf.len() as u64));
    assert(bin_image(elf).subrange(8, 8 + elf.len() as int) =~= elf);
}

/// Writing a number as 8 little-endian bytes and reading them back gives the number.
pub proof fn law_le_roundtrip(x: u64)
    ensures
        le_value(le_bytes(x)) == x,
{
    let b = le_bytes(x);
    assert(b[0] == ((x >> 0u64) & 0xffu64) as u8);
    assert(b[1] == ((x >> 8u64) & 0xffu64) as u8);
    assert(b[2] == ((x >> 16u64) & 0xffu64) as u8);
    assert(b[3] == ((x >> 24u64) & 0xffu64) as u8);
    assert(b[4] == ((x >> 32u64) & 0xffu64) as u8);
    assert(b[5] == ((x >> 40u64) & 0xffu64) as u8);
    assert(b[6] == ((x >> 48u64) & 0xffu64) as u8);
    assert(b[7] == ((x >> 56u64) & 0xffu64) as u8);
    let (b0, b1, b2, b3, b4, b5, b6, b7) = (b[0], b[1], b[2], b[3], b[4], b[5], b[6], b[7]);
    assert((b0 as u64) | ((b1 as u64) << 8u64) | ((b2 as u64) << 16u64) | ((b3 as u64) << 24u64)
        | ((b4 as u64) << 32u64) | ((b5 as u64) << 40u64) | ((b6 as u64) << 48u64) | ((
    b7 as u64) << 56u64) == x) by (bit_vector)
        requires
            b0 == ((x >> 0u64) & 0xffu64) as u8,
            b1 == ((x >> 8u64) & 0xffu64) as u8,
            b2 == ((x >> 16u64) & 0xffu64) as u8,
            b3 == ((x >> 24u64) & 0xffu64) as u8,
            b4 == ((x >> 32u64) & 0xffu64) as u8,
            b5 == ((x >> 40u64) & 0xffu64) as u8,
            b6 == ((x >> 48u64) & 0xffu64) as u8,
            b7 == ((x >> 56u64) & 0xffu64) as u8,
    ;
}

/// The header at the start of a packed application image.
pub struct AppHeader {
    pub magic: u64,
    pub app_count: u64,
    pub app_size: [u64; 6],
}

impl AppHeader {
    /// The magic number that opens every packed image.
    pub const MAGIC: u64 = 0x4150505F;

    /// The header of an image that holds one application of `app_len` bytes.
    pub fn new(app_len: u64) -> (h: AppHeader)
        ensures
            h.magic == Self::MAGIC,
            h.app_count == 1,
            h.app_size@ == seq![app_len, 0u64, 0u64, 0u64, 0u64, 0u64],
    {
        let h = AppHeader { magic: Self::MAGIC, app_count: 1, app_size: [app_len, 0, 0, 0, 0, 0] };
        assert(h.app_size@ =~= seq![app_len, 0u64, 0u64, 0u64, 0u64, 0u64]);
        h
    }

    /// The header's memory layout: its eight `u64` fields in order, each as
    /// 8 little-endian bytes.
    pub open spec fn layout(self) -> Seq<u8> {
        le_bytes(self.magic) + le_bytes(self.app_count) + le_bytes(self.app_size@[0]) + le_bytes(
            self.app_size@[1],
        ) + le_bytes(self.app_size@[2]) + le_bytes(self.app_size@[3]) + le_bytes(self.app_size@[4])
            + le_bytes(self.app_size@[5])
    }

    /// The header as the bytes that are written to the image.
    pub fn to_bytes(&self) -> (r: Vec<u8>)
        ensures
            r@ == self.layout(),
    {
        let mut r: Vec<u8> = Vec::new();
        push_all(&mut r, le_bytes_of(self.magic).as_slice());
        push_all(&mut r, le_bytes_of(self.app_count).as_slice());
        let mut k: usize = 0;
        while k < 6
            invariant
                k <= 6,
                r@ == le_bytes(self.magic) + le_bytes(self.app_count) + Self::sizes_layout(
                    self.app_size@,
                    k as int,
                ),
            decreases 6 - k,
        {
            push_all(&mut r, le_bytes_of(self.app_size[k]).as_slice());
            k += 1;
            assert(Self::sizes_layout(self.app_size@, k as int) =~= Self::sizes_layout(
                self.app_size@,
                k - 1,
            ) + le_bytes(self.app_size@[k - 1]));
        }
        proof {
            reveal_with_fuel(AppHeader::sizes_layout, 7);
        }
        assert(r@ =~= self.layout());
        r
    }

    /// The layout of the first `k` application sizes.
    pub open spec fn sizes_layout(sizes: Seq<u64>, k: int) -> Seq<u8>
        decreases k,
    {
        if k <= 0 {
            Seq::empty()
        } else {
            Self::sizes_layout(sizes, k - 1) + le_bytes(sizes[k - 1])
        }
    }
}

/// The 8 little-endian bytes of `x`.
pub fn le_bytes_of(x: u64) -> (r: Vec<u8>)
    ensures
        r@ == le_bytes(x),
{
    let mut r: Vec<u8> = Vec::new();
    let mut j: u64 = 0;
    while j < 8
        invariant
            j <= 8,
            r@.len() == j,
            forall|k: int| 0 <= k < j ==> #[trigger] r@[k] == le_byte(x, k),
        decreases 8 - j,
    {
        r.push(((x >> (8 * j)) & 0xff) as u8);
        j += 1;
    }
    assert(r@ =~= le_bytes(x));
    r
}

/// What the packed image holds before padding: the header for `app`, then `app`.
pub open spec fn packed_body(app: Seq<u8>) -> Seq<u8> {
    le_bytes(AppHeader::MAGIC) + le_bytes(1) + le_bytes(app.len() as u64) + le_bytes(0) + le_bytes(0)
        + le_bytes(0) + le_bytes(0) + le_bytes(0) + app
}

/// The packed image for one application: its header, then the application,
/// then zero bytes up to the image length; the byte just before the 32 MiB
/// mark is always zero, since the image is closed by writing a zero there.
pub open spec fn packed_image(app: Seq<u8>) -> Seq<u8> {
    let body = packed_body(app);
    Seq::new(
        image_len(body.len() as int) as nat,
        |i: int|
            if i == IMAGE_SIZE - 1 {
                0u8
            } else if i < body.len() {
                body[i]
            } else {
                0u8
            },
    )
}

/// Builds the packed image for one application.
pub fn pack_app_image(app: &[u8]) -> (r: Vec<u8>)
    requires
        app@.len() + 64 <= usize::MAX,
    ensures
        r@ == packed_image(app@),
{
    let header = AppHeader::new(app.len() as u64);
    let mut r = header.to_bytes();
    push_all(&mut r, app);
    let ghost body = r@;
    assert(body =~= packed_body(app@));
    if r.len() < IMAGE_SIZE {
        pad_zeros(&mut r, IMAGE_SIZE);
    } else {
        r[IMAGE_SIZE - 1] = 0u8;
    }
    assert(r@ =~= packed_image(app@));
    r
}

/// Reading a packed image back gives its header fields (the magic number,
/// one application, the application's length) and the application itself,
/// unless the application reaches the closing byte at the 32 MiB mark.
pub proof fn law_packed_image_reads_back(app: Seq<u8>)
    requires
        app.len() + 64 < IMAGE_SIZE,
    ensures
        le_value(packed_image(app).subrange(0, 8)) == AppHeader::MAGIC,
        le_value(packed_image(app).subrange(8, 16)) == 1,
        le_value(packed_image(app).subrange(16, 24)) == app.len(),
        packed_image(app).subrange(64, 64 + app.len() as int) == app,
        packed_image(app).len() == IMAGE_SIZE,
{
    law_le_roundtrip(AppHeader::MAGIC);
    law_le_roundtrip(1);
    law_le_roundtrip(app.len() as u64);
    let img = packed_image(app);
    assert(img.subrange(0, 8) =~= le_bytes(AppHeader::MAGIC));
    assert(img.subrange(8, 16) =~= le_bytes(1));
    assert(img.subrange(16, 24) =~= le_bytes(app.len() as u64));
    assert(img.subrange(64, 64 + app.len() as int) =~= app);
}

} // verus!
