//! The wire format between guest JavaScript and host functions.
//!
//! Binary blobs travel beside the JSON in a length-prefixed *sidecar*:
//!
//! ```text
//! [count: u32-le] [len0: u32-le] [bytes0...] [len1: u32-le] [bytes1...] ...
//! ```
//!
//! What a host function returns starts with a one-byte tag:
//!
//! - `0x00`: JSON text follows,
//! - `0x01`: raw bytes follow (a single buffer),
//! - `0x02`: `[sidecar_len: u32-le] [sidecar...] [json...]` follows.

use crate::text::{
    decimal, hex_byte, joined, push_decimal, push_hex_byte, utf8_error_string, utf8_fault, utf8_fault_text,
    with_number,
};
use vstd::prelude::*;
use vstd::slice::{slice_subrange, slice_to_vec};
use vstd::string::*;
use vstd::utf8::{decode_utf8, encode_utf8, valid_utf8};

verus! {

/// Tag byte of a JSON return payload.
pub const TAG_JSON: u8 = 0x00;

/// Tag byte of a raw binary return payload.
pub const TAG_BINARY: u8 = 0x01;

/// Tag byte of a JSON return payload with a binary sidecar before it:
/// `[0x02] [sidecar_len: u32-le] [sidecar_bytes...] [json_bytes...]`.
pub const TAG_JSON_WITH_BINARIES: u8 = 0x02;

/// JSON key that marks where a binary blob of the sidecar belongs. Its value is the zero-based
/// index of the blob: `{"__bin__": 0}` stands for blob 0.
///
/// The key is reserved: an object whose only key it is reads as a placeholder.
pub const PLACEHOLDER_BIN: &'static str = "__bin__";

/// How deep a JSON tree may nest before a traversal gives up.
pub const MAX_JSON_DEPTH: usize = 64;

// ── Errors ───────────────────────────────────────────────────────────

/// What can become the text of a message.
pub trait Message: Sized {
    /// The text.
    spec fn message(&self) -> Seq<char>;

    /// Takes the text out.
    fn into_message(self) -> (s: String)
        ensures
            s@ == self.message(),
    ;
}

impl Message for String {
    open spec fn message(&self) -> Seq<char> {
        self@
    }

    fn into_message(self) -> (s: String) {
        self
    }
}

impl Message for &str {
    open spec fn message(&self) -> Seq<char> {
        (*self)@
    }

    fn into_message(self) -> (s: String) {
        self.to_owned()
    }
}

/// A framing error: a message for whoever handles it.
#[derive(Debug)]
pub struct DecodeError(String);

impl View for DecodeError {
    type V = Seq<char>;

    closed spec fn view(&self) -> Seq<char> {
        self.0@
    }
}

impl Clone for DecodeError {
    fn clone(&self) -> (e: DecodeError)
        ensures
            e@ == self@,
    {
        DecodeError(self.0.clone())
    }
}

impl DecodeError {
    /// A decode error with the given message.
    pub fn new<M: Message>(msg: M) -> (e: DecodeError)
        ensures
            e@ == msg.message(),
    {
        DecodeError(msg.into_message())
    }

    /// The message.
    pub fn to_string(&self) -> (s: String)
        ensures
            s@ == self@,
    {
        self.0.clone()
    }
}

// ── Little-endian words ──────────────────────────────────────────────

/// The four little-endian bytes of `n`.
pub open spec fn le32(n: nat) -> Seq<u8> {
    seq![
        (n % 256) as u8,
        (n / 256 % 256) as u8,
        (n / 65536 % 256) as u8,
        (n / 16777216 % 256) as u8,
    ]
}

/// The number whose four little-endian bytes stand in `data` at `offset`.
pub open spec fn le32_at(data: Seq<u8>, offset: int) -> nat {
    (data[offset] + 256 * data[offset + 1] + 65536 * data[offset + 2] + 16777216 * data[offset
        + 3]) as nat
}

proof fn lemma_le32_split(data: Seq<u8>, offset: int)
    requires
        0 <= offset,
        offset + 4 <= data.len(),
    ensures
        le32_at(data, offset) <= u32::MAX,
        le32(le32_at(data, offset)) == data.subrange(offset, offset + 4),
{
    let (a, b, c, d) = (
        data[offset] as int,
        data[offset + 1] as int,
        data[offset + 2] as int,
        data[offset + 3] as int,
    );
    let n = a + 256 * b + 65536 * c + 16777216 * d;
    assert(n % 256 == a && n / 256 % 256 == b && n / 65536 % 256 == c && n / 16777216 % 256 == d);
    assert(le32(n as nat) =~= data.subrange(offset, offset + 4));
}

/// A number below 2^32 is the sum of its base-256 digits.
#[verifier::spinoff_prover]
proof fn lemma_le32_digits(n: int)
    requires
        0 <= n <= u32::MAX,
    ensures
        n == n % 256 + 256 * (n / 256 % 256) + 65536 * (n / 65536 % 256) + 16777216 * (n / 16777216
            % 256),
{
    let a = n / 256;
    let b = a / 256;
    let c = b / 256;
    assert(n / 65536 == b);
    assert(n / 16777216 == c);
    assert(c < 256);
    assert(n == 256 * a + n % 256 && a == 256 * b + a % 256 && b == 256 * c + b % 256);
}

proof fn lemma_le32_join(n: nat, data: Seq<u8>, offset: int)
    requires
        n <= u32::MAX,
        0 <= offset,
        offset + 4 <= data.len(),
        data.subrange(offset, offset + 4) == le32(n),
    ensures
        le32_at(data, offset) == n,
{
    let s = data.subrange(offset, offset + 4);
    assert(s[0] == data[offset] && s[1] == data[offset + 1] && s[2] == data[offset + 2] && s[3]
        == data[offset + 3]);
    lemma_le32_digits(n as int);
}

/// Appends the four little-endian bytes of `n`.
fn push_le32(buf: &mut Vec<u8>, n: u32)
    ensures
        final(buf)@ == old(buf)@ + le32(n as nat),
{
    buf.push((n % 256) as u8);
    buf.push((n / 256 % 256) as u8);
    buf.push((n / 65536 % 256) as u8);
    buf.push((n / 16777216 % 256) as u8);
    assert(buf@ =~= old(buf)@ + le32(n as nat));
}

/// Reads the four little-endian bytes at `offset`.
fn read_le32(data: &[u8], offset: usize) -> (n: u32)
    requires
        offset + 4 <= data@.len(),
    ensures
        n == le32_at(data@, offset as int),
{
    proof {
        lemma_le32_split(data@, offset as int);
    }
    data[offset] as u32 + 256 * (data[offset + 1] as u32) + 65536 * (data[offset + 2] as u32)
        + 16777216 * (data[offset + 3] as u32)
}

// ── The sidecar ──────────────────────────────────────────────────────

/// The blobs one after another, each behind its length.
pub open spec fn frames(blobs: Seq<Seq<u8>>) -> Seq<u8>
    decreases blobs.len(),
{
    if blobs.len() == 0 {
        Seq::empty()
    } else {
        le32(blobs[0].len()) + blobs[0] + frames(blobs.drop_first())
    }
}

/// The sidecar of `blobs`: their count, then each blob behind its length.
pub open spec fn sidecar(blobs: Seq<Seq<u8>>) -> Seq<u8> {
    le32(blobs.len()) + frames(blobs)
}

/// The sidecar can be written: every length fits its field and the whole fits in memory.
pub open spec fn sidecar_fits(blobs: Seq<Seq<u8>>) -> bool {
    &&& blobs.len() <= u32::MAX
    &&& forall|i: int| 0 <= i < blobs.len() ==> (#[trigger] blobs[i]).len() <= u32::MAX
    &&& 4 + frames(blobs).len() <= usize::MAX
}

/// What is wrong with a malformed sidecar.
pub enum SidecarFault {
    /// There is no room for the count.
    ShortHeader,
    /// More blobs are announced than length fields could follow.
    TooMany { count: nat, possible: nat },
    /// The end of a length field is not addressable.
    HeaderOverflow { blob: nat },
    /// A length field is cut off.
    HeaderTruncated { blob: nat },
    /// The end of a blob is not addressable.
    DataOverflow { blob: nat },
    /// A blob is cut off.
    DataTruncated { blob: nat, need: nat, have: nat },
    /// Bytes follow the last blob.
    Trailing { extra: nat, count: nat },
}

/// The message of a fault.
pub open spec fn sidecar_fault_text(f: SidecarFault) -> Seq<char> {
    match f {
        SidecarFault::ShortHeader => "Binary sidecar too short for count header"@,
        SidecarFault::TooMany { count, possible } => "Binary sidecar count ("@ + decimal(count)
            + ") exceeds maximum possible ("@ + decimal(possible) + ")"@,
        SidecarFault::HeaderOverflow { blob } => "Binary sidecar offset overflow at blob "@
            + decimal(blob) + " length header"@,
        SidecarFault::HeaderTruncated { blob } => "Binary sidecar truncated at blob "@ + decimal(
            blob,
        ) + " length header"@,
        SidecarFault::DataOverflow { blob } => "Binary sidecar offset overflow at blob "@
            + decimal(blob) + " data"@,
        SidecarFault::DataTruncated { blob, need, have } => "Binary sidecar truncated at blob "@
            + decimal(blob) + " data (need "@ + decimal(need) + " bytes, have "@ + decimal(have)
            + ")"@,
        SidecarFault::Trailing { extra, count } => "Binary sidecar has "@ + decimal(extra)
            + " trailing bytes after all "@ + decimal(count) + " blobs"@,
    }
}

/// Reads the blobs numbered `i` up to `count` from `offset` on, to the end of `data`.
pub open spec fn parse_frames(data: Seq<u8>, offset: int, i: nat, count: nat) -> Result<
    Seq<Seq<u8>>,
    SidecarFault,
>
    decreases count - i,
{
    if i >= count {
        if offset == data.len() {
            Ok(Seq::empty())
        } else {
            Err(SidecarFault::Trailing { extra: (data.len() - offset) as nat, count })
        }
    } else if offset + 4 > usize::MAX {
        Err(SidecarFault::HeaderOverflow { blob: i })
    } else if offset + 4 > data.len() {
        Err(SidecarFault::HeaderTruncated { blob: i })
    } else {
        let start = offset + 4;
        let len = le32_at(data, offset);
        if start + len > usize::MAX {
            Err(SidecarFault::DataOverflow { blob: i })
        } else if start + len > data.len() {
            Err(
                SidecarFault::DataTruncated {
                    blob: i,
                    need: len,
                    have: (data.len() - start) as nat,
                },
            )
        } else {
            match parse_frames(data, start + len, i + 1, count) {
                Ok(rest) => Ok(seq![data.subrange(start, start + len)] + rest),
                Err(f) => Err(f),
            }
        }
    }
}

/// Reads a whole sidecar.
pub open spec fn parse_sidecar(data: Seq<u8>) -> Result<Seq<Seq<u8>>, SidecarFault> {
    if data.len() < 4 {
        Err(SidecarFault::ShortHeader)
    } else {
        let count = le32_at(data, 0);
        let possible = ((data.len() - 4) / 4) as nat;
        if count > possible {
            Err(SidecarFault::TooMany { count, possible })
        } else {
            parse_frames(data, 4, 0, count)
        }
    }
}

proof fn lemma_frames_push(blobs: Seq<Seq<u8>>, blob: Seq<u8>)
    ensures
        frames(blobs.push(blob)) == frames(blobs) + le32(blob.len()) + blob,
    decreases blobs.len(),
{
    if blobs.len() == 0 {
        assert(blobs.push(blob).drop_first() =~= blobs);
        assert(frames(blobs) =~= Seq::<u8>::empty());
        assert(frames(blobs.push(blob)) =~= frames(blobs) + le32(blob.len()) + blob);
    } else {
        lemma_frames_push(blobs.drop_first(), blob);
        assert(blobs.push(blob).drop_first() =~= blobs.drop_first().push(blob));
        assert(frames(blobs.push(blob)) =~= frames(blobs) + le32(blob.len()) + blob);
    }
}

/// Four bytes of each frame are its length field.
pub proof fn lemma_frames_len(blobs: Seq<Seq<u8>>)
    ensures
        frames(blobs).len() >= 4 * blobs.len(),
    decreases blobs.len(),
{
    if blobs.len() > 0 {
        lemma_frames_len(blobs.drop_first());
    }
}

proof fn lemma_frames_prefix_len(blobs: Seq<Seq<u8>>, n: int)
    requires
        0 <= n <= blobs.len(),
    ensures
        frames(blobs.take(n)).len() <= frames(blobs).len(),
    decreases blobs.len() - n,
{
    if n == blobs.len() {
        assert(blobs.take(n) =~= blobs);
    } else {
        lemma_frames_prefix_len(blobs, n + 1);
        lemma_frames_push(blobs.take(n), blobs[n]);
        assert(blobs.take(n + 1) =~= blobs.take(n).push(blobs[n]));
    }
}

/// What is read from `offset` on, put back together, is what stands there.
proof fn lemma_parse_frames_sound(data: Seq<u8>, offset: int, i: nat, count: nat)
    requires
        0 <= offset <= data.len(),
        i <= count,
    ensures
        parse_frames(data, offset, i, count) matches Ok(blobs) ==> {
            &&& blobs.len() == count - i
            &&& data.subrange(offset, data.len() as int) == frames(blobs)
            &&& forall|j: int| 0 <= j < blobs.len() ==> (#[trigger] blobs[j]).len() <= u32::MAX
        },
    decreases count - i,
{
    if i < count && parse_frames(data, offset, i, count) is Ok {
        let len = le32_at(data, offset);
        let start = offset + 4;
        lemma_le32_split(data, offset);
        lemma_parse_frames_sound(data, start + len, i + 1, count);
        let blobs = parse_frames(data, offset, i, count)->Ok_0;
        let rest = parse_frames(data, start + len, i + 1, count)->Ok_0;
        assert(blobs.drop_first() =~= rest);
        assert(data.subrange(offset, data.len() as int) =~= data.subrange(offset, start)
            + data.subrange(start, start + len) + data.subrange(start + len, data.len() as int));
    }
}

/// Blobs that stand in `data` from `offset` on are read back.
proof fn lemma_parse_frames_complete(
    data: Seq<u8>,
    offset: int,
    i: nat,
    count: nat,
    blobs: Seq<Seq<u8>>,
)
    requires
        0 <= offset <= data.len() <= usize::MAX,
        blobs.len() == count - i,
        forall|j: int| 0 <= j < blobs.len() ==> (#[trigger] blobs[j]).len() <= u32::MAX,
        data.subrange(offset, data.len() as int) == frames(blobs),
    ensures
        parse_frames(data, offset, i, count) == Ok::<Seq<Seq<u8>>, SidecarFault>(blobs),
    decreases count - i,
{
    if i < count {
        let tail = data.subrange(offset, data.len() as int);
        let head = blobs[0];
        let rest = blobs.drop_first();
        let n = head.len() as int;
        assert(tail.subrange(0, 4) =~= le32(head.len()));
        assert(data.subrange(offset, offset + 4) =~= tail.subrange(0, 4));
        lemma_le32_join(head.len(), data, offset);
        assert(tail.subrange(4, 4 + n) =~= head);
        assert(data.subrange(offset + 4, offset + 4 + n) =~= tail.subrange(4, 4 + n));
        assert(tail.subrange(4 + n, tail.len() as int) =~= frames(rest));
        assert(data.subrange(offset + 4 + n, data.len() as int) =~= tail.subrange(
            4 + n,
            tail.len() as int,
        ));
        lemma_parse_frames_complete(data, offset + 4 + n, i + 1, count, rest);
        assert(seq![head] + rest =~= blobs);
    } else {
        assert(blobs =~= Seq::empty());
        assert(data.subrange(offset, data.len() as int).len() == 0);
    }
}

/// Reading back what was written gives the same blobs, and nothing else reads as those blobs:
/// a byte string is accepted exactly when it is the sidecar of the blobs that come out.
pub proof fn law_sidecar_round_trip(data: Seq<u8>, blobs: Seq<Seq<u8>>)
    requires
        data.len() <= usize::MAX,
    ensures
        parse_sidecar(data) == Ok::<Seq<Seq<u8>>, SidecarFault>(blobs) <==> (data == sidecar(blobs)
            && sidecar_fits(blobs)),
{
    if parse_sidecar(data) == Ok::<Seq<Seq<u8>>, SidecarFault>(blobs) {
        lemma_le32_split(data, 0);
        lemma_parse_frames_sound(data, 4, 0, le32_at(data, 0));
        assert(data =~= data.subrange(0, 4) + data.subrange(4, data.len() as int));
    }
    if data == sidecar(blobs) && sidecar_fits(blobs) {
        assert(data.subrange(0, 4) =~= le32(blobs.len()));
        lemma_le32_join(blobs.len(), data, 0);
        lemma_frames_len(blobs);
        assert(data.subrange(4, data.len() as int) =~= frames(blobs));
        lemma_parse_frames_complete(data, 4, 0, blobs.len(), blobs);
    }
}

/// Two lists of blobs with the same sidecar are the same list.
pub proof fn law_sidecar_injective(a: Seq<Seq<u8>>, b: Seq<Seq<u8>>)
    requires
        sidecar_fits(a),
        sidecar_fits(b),
        sidecar(a) == sidecar(b),
    ensures
        a == b,
{
    let data = sidecar(a);
    law_sidecar_round_trip(data, a);
    law_sidecar_round_trip(data, b);
    assert(parse_sidecar(data) == Ok::<Seq<Seq<u8>>, SidecarFault>(a));
    assert(parse_sidecar(data) == Ok::<Seq<Seq<u8>>, SidecarFault>(b));
}

/// A sidecar with bytes after it is refused.
pub proof fn law_sidecar_rejects_trailing_bytes(blobs: Seq<Seq<u8>>, extra: Seq<u8>)
    requires
        sidecar_fits(blobs),
        extra.len() > 0,
        sidecar(blobs).len() + extra.len() <= usize::MAX,
    ensures
        parse_sidecar(sidecar(blobs) + extra) == Err::<Seq<Seq<u8>>, SidecarFault>(
            SidecarFault::Trailing { extra: extra.len(), count: blobs.len() },
        ),
{
    let data = sidecar(blobs) + extra;
    assert(data.subrange(0, 4) =~= le32(blobs.len()));
    lemma_le32_join(blobs.len(), data, 0);
    lemma_frames_len(blobs);
    assert(data.subrange(4, data.len() as int) =~= frames(blobs) + extra);
    lemma_parse_frames_trailing(data, 4, 0, blobs.len(), blobs, extra);
}

proof fn lemma_parse_frames_trailing(
    data: Seq<u8>,
    offset: int,
    i: nat,
    count: nat,
    blobs: Seq<Seq<u8>>,
    extra: Seq<u8>,
)
    requires
        0 <= offset <= data.len() <= usize::MAX,
        blobs.len() == count - i,
        extra.len() > 0,
        forall|j: int| 0 <= j < blobs.len() ==> (#[trigger] blobs[j]).len() <= u32::MAX,
        data.subrange(offset, data.len() as int) == frames(blobs) + extra,
    ensures
        parse_frames(data, offset, i, count) == Err::<Seq<Seq<u8>>, SidecarFault>(
            SidecarFault::Trailing { extra: extra.len(), count },
        ),
    decreases count - i,
{
    let tail = data.subrange(offset, data.len() as int);
    if i < count {
        let head = blobs[0];
        let rest = blobs.drop_first();
        let n = head.len() as int;
        assert(tail.subrange(0, 4) =~= le32(head.len()));
        assert(data.subrange(offset, offset + 4) =~= tail.subrange(0, 4));
        lemma_le32_join(head.len(), data, offset);
        assert(tail.subrange(4 + n, tail.len() as int) =~= frames(rest) + extra);
        assert(data.subrange(offset + 4 + n, data.len() as int) =~= tail.subrange(
            4 + n,
            tail.len() as int,
        ));
        lemma_parse_frames_trailing(data, offset + 4 + n, i + 1, count, rest, extra);
    } else {
        assert(blobs =~= Seq::empty());
        assert(tail =~= extra);
        assert(tail.len() == data.len() - offset);
    }
}

// ── Encoding ─────────────────────────────────────────────────────────

/// What holds bytes that can be sent as a blob.
pub trait Blob {
    /// The bytes.
    spec fn blob(&self) -> Seq<u8>;

    /// Lends the bytes.
    fn blob_bytes(&self) -> (b: &[u8])
        ensures
            b@ == self.blob(),
    ;
}

impl Blob for [u8] {
    open spec fn blob(&self) -> Seq<u8> {
        self@
    }

    fn blob_bytes(&self) -> (b: &[u8]) {
        self
    }
}

impl<const N: usize> Blob for [u8; N] {
    open spec fn blob(&self) -> Seq<u8> {
        self@
    }

    fn blob_bytes(&self) -> (b: &[u8]) {
        self.as_slice()
    }
}

impl Blob for Vec<u8> {
    open spec fn blob(&self) -> Seq<u8> {
        self@
    }

    fn blob_bytes(&self) -> (b: &[u8]) {
        self.as_slice()
    }
}

impl Blob for str {
    open spec fn blob(&self) -> Seq<u8> {
        encode_utf8(self@)
    }

    fn blob_bytes(&self) -> (b: &[u8]) {
        self.as_bytes()
    }
}

impl Blob for String {
    open spec fn blob(&self) -> Seq<u8> {
        encode_utf8(self@)
    }

    fn blob_bytes(&self) -> (b: &[u8]) {
        self.as_str().as_bytes()
    }
}

impl<T: Blob + ?Sized> Blob for &T {
    open spec fn blob(&self) -> Seq<u8> {
        (**self).blob()
    }

    fn blob_bytes(&self) -> (b: &[u8]) {
        (**self).blob_bytes()
    }
}

impl<T: Blob + ?Sized> Blob for Box<T> {
    open spec fn blob(&self) -> Seq<u8> {
        (**self).blob()
    }

    fn blob_bytes(&self) -> (b: &[u8]) {
        (**self).blob_bytes()
    }
}

/// The bytes of each blob.
pub open spec fn contents<B: Blob>(blobs: Seq<B>) -> Seq<Seq<u8>> {
    Seq::new(blobs.len(), |i: int| blobs[i].blob())
}

/// The bytes of each blob, if there are blobs.
pub open spec fn optional_contents(blobs: Option<&Vec<Vec<u8>>>) -> Option<Seq<Seq<u8>>> {
    match blobs {
        Some(list) => Some(contents(list@)),
        None => None,
    }
}

/// Why blobs cannot be written as a sidecar, if they cannot: the count is looked at first,
/// then the total size, then the blobs in order.
pub open spec fn encode_fault(blobs: Seq<Seq<u8>>) -> Option<Seq<char>> {
    if blobs.len() > u32::MAX {
        Some("encode_binaries: blob count ("@ + decimal(blobs.len()) + ") exceeds u32::MAX"@)
    } else if 4 + frames(blobs).len() > usize::MAX {
        Some("encode_binaries: total sidecar size overflowed usize"@)
    } else {
        match first_oversized(blobs) {
            Some(len) => Some(
                "encode_binaries: blob length ("@ + decimal(len) + ") exceeds u32::MAX"@,
            ),
            None => None,
        }
    }
}

/// The length of the first blob whose length does not fit its field.
pub open spec fn first_oversized(blobs: Seq<Seq<u8>>) -> Option<nat>
    decreases blobs.len(),
{
    if blobs.len() == 0 {
        None
    } else if blobs[0].len() > u32::MAX {
        Some(blobs[0].len())
    } else {
        first_oversized(blobs.drop_first())
    }
}

proof fn lemma_first_oversized(blobs: Seq<Seq<u8>>, n: int)
    requires
        0 <= n <= blobs.len(),
        forall|i: int| 0 <= i < n ==> (#[trigger] blobs[i]).len() <= u32::MAX,
    ensures
        first_oversized(blobs) == first_oversized(blobs.skip(n)),
    decreases n,
{
    if n > 0 {
        lemma_first_oversized(blobs.drop_first(), n - 1);
        assert(blobs.drop_first().skip(n - 1) =~= blobs.skip(n));
    } else {
        assert(blobs.skip(0) =~= blobs);
    }
}

proof fn lemma_no_fault_fits(blobs: Seq<Seq<u8>>)
    ensures
        encode_fault(blobs) is None <==> sidecar_fits(blobs),
{
    if forall|i: int| 0 <= i < blobs.len() ==> (#[trigger] blobs[i]).len() <= u32::MAX {
        lemma_first_oversized(blobs, blobs.len() as int);
    } else {
        let j = choose|j: int| 0 <= j < blobs.len() && (#[trigger] blobs[j]).len() > u32::MAX;
        lemma_some_oversized(blobs, j);
    }
}

proof fn lemma_some_oversized(blobs: Seq<Seq<u8>>, j: int)
    requires
        0 <= j < blobs.len(),
        blobs[j].len() > u32::MAX,
    ensures
        first_oversized(blobs) is Some,
    decreases j,
{
    if blobs[0].len() <= u32::MAX {
        assert(blobs.drop_first()[j - 1] == blobs[j]);
        lemma_some_oversized(blobs.drop_first(), j - 1);
    }
}

/// The size of the sidecar, if it fits in memory.
fn sidecar_size<B: Blob>(blobs: &[B]) -> (size: Option<usize>)
    ensures
        size == (if 4 + frames(contents(blobs@)).len() <= usize::MAX {
            Some((4 + frames(contents(blobs@)).len()) as usize)
        } else {
            None
        }),
{
    let mut size: usize = 4;
    let mut i: usize = 0;
    assert(contents(blobs@).take(0) =~= Seq::empty());
    while i < blobs.len()
        invariant
            i <= blobs@.len(),
            size == 4 + frames(contents(blobs@).take(i as int)).len(),
        decreases blobs@.len() - i,
    {
        proof {
            let all = contents(blobs@);
            lemma_frames_push(all.take(i as int), all[i as int]);
            assert(all.take(i + 1) =~= all.take(i as int).push(all[i as int]));
            lemma_frames_prefix_len(all, i + 1);
        }
        let len: usize = blobs[i].blob_bytes().len();
        let framed: usize = match size.checked_add(4) {
            Some(framed) => framed,
            None => return None,
        };
        size = match framed.checked_add(len) {
            Some(size) => size,
            None => return None,
        };
        i += 1;
    }
    assert(contents(blobs@).take(i as int) =~= contents(blobs@));
    Some(size)
}

/// Writes blobs as a sidecar.
///
/// Format: `[count: u32-le] [len0: u32-le] [bytes0...] [len1: u32-le] [bytes1...] ...`
pub fn encode_binaries<B: Blob>(blobs: &[B]) -> (r: Result<Vec<u8>, DecodeError>)
    ensures
        r is Ok <==> sidecar_fits(contents(blobs@)),
        match r {
            Ok(buf) => buf@ == sidecar(contents(blobs@)),
            Err(e) => encode_fault(contents(blobs@)) == Some(e@),
        },
{
    let ghost all = contents(blobs@);
    proof {
        lemma_no_fault_fits(all);
    }
    if blobs.len() > u32::MAX as usize {
        return Err(
            DecodeError::new(
                with_number(
                    "encode_binaries: blob count (",
                    blobs.len() as u64,
                    ") exceeds u32::MAX",
                ),
            ),
        );
    }
    let size: usize = match sidecar_size(blobs) {
        Some(size) => size,
        None => {
            return Err(DecodeError::new("encode_binaries: total sidecar size overflowed usize"));
        },
    };
    let mut buf: Vec<u8> = Vec::with_capacity(size);
    push_le32(&mut buf, blobs.len() as u32);
    let mut i: usize = 0;
    assert(all.take(0) =~= Seq::empty());
    assert(buf@ =~= le32(all.len()) + frames(all.take(0)));
    while i < blobs.len()
        invariant
            i <= blobs@.len(),
            all == contents(blobs@),
            all.len() <= u32::MAX,
            4 + frames(all).len() <= usize::MAX,
            encode_fault(all) is None <==> sidecar_fits(all),
            forall|j: int| 0 <= j < i ==> (#[trigger] all[j]).len() <= u32::MAX,
            buf@ == le32(all.len()) + frames(all.take(i as int)),
        decreases blobs@.len() - i,
    {
        let bytes = blobs[i].blob_bytes();
        assert(bytes@ == all[i as int]);
        if bytes.len() > u32::MAX as usize {
            proof {
                lemma_first_oversized(all, i as int);
                assert(all.skip(i as int)[0] == all[i as int]);
            }
            return Err(
                DecodeError::new(
                    with_number(
                        "encode_binaries: blob length (",
                        bytes.len() as u64,
                        ") exceeds u32::MAX",
                    ),
                ),
            );
        }
        push_le32(&mut buf, bytes.len() as u32);
        buf.extend_from_slice(bytes);
        proof {
            lemma_frames_push(all.take(i as int), all[i as int]);
            assert(all.take(i + 1) =~= all.take(i as int).push(all[i as int]));
            assert(buf@ =~= le32(all.len()) + frames(all.take(i + 1)));
        }
        i += 1;
    }
    assert(all.take(i as int) =~= all);
    Ok(buf)
}

/// Tags JSON text as a return value.
pub fn encode_json_return(json: &str) -> (buf: Vec<u8>)
    ensures
        buf@ == seq![TAG_JSON] + encode_utf8(json@),
{
    let mut buf: Vec<u8> = Vec::new();
    buf.push(TAG_JSON);
    buf.extend_from_slice(json.as_bytes());
    assert(buf@ =~= seq![TAG_JSON] + encode_utf8(json@));
    buf
}

/// Tags raw bytes as a return value.
pub fn encode_binary_return(data: &[u8]) -> (buf: Vec<u8>)
    ensures
        buf@ == seq![TAG_BINARY] + data@,
{
    let mut buf: Vec<u8> = Vec::new();
    buf.push(TAG_BINARY);
    buf.extend_from_slice(data);
    assert(buf@ =~= seq![TAG_BINARY] + data@);
    buf
}

/// The bytes of a return value that is JSON text with a sidecar.
pub open spec fn json_with_binaries(json: Seq<char>, sidecar: Seq<u8>) -> Seq<u8> {
    seq![TAG_JSON_WITH_BINARIES] + le32(sidecar.len()) + sidecar + encode_utf8(json)
}

/// Tags JSON text with a sidecar as a return value.
///
/// Format: `[TAG_JSON_WITH_BINARIES] [sidecar_len: u32-le] [sidecar...] [json...]`
///
/// The sidecar is what [`encode_binaries`] gives, and the text refers to its blobs by
/// `{"__bin__": N}`. A sidecar longer than `u32::MAX` bytes is refused.
pub fn encode_json_with_binaries_return(json: &str, sidecar: &[u8]) -> (r: Result<
    Vec<u8>,
    DecodeError,
>)
    ensures
        r is Ok <==> sidecar@.len() <= u32::MAX,
        match r {
            Ok(buf) => buf@ == json_with_binaries(json@, sidecar@),
            Err(e) => e@ == "sidecar length exceeds u32::MAX"@,
        },
{
    if sidecar.len() > u32::MAX as usize {
        return Err(DecodeError::new("sidecar length exceeds u32::MAX"));
    }
    let mut buf: Vec<u8> = Vec::new();
    buf.push(TAG_JSON_WITH_BINARIES);
    push_le32(&mut buf, sidecar.len() as u32);
    buf.extend_from_slice(sidecar);
    buf.extend_from_slice(json.as_bytes());
    assert(buf@ =~= json_with_binaries(json@, sidecar@));
    Ok(buf)
}

// ── Decoding ─────────────────────────────────────────────────────────

/// Reads a sidecar into its blobs. A buffer that is malformed in any way is refused: cut off,
/// announcing more blobs than could follow, or with bytes left over.
pub fn decode_binaries(data: &[u8]) -> (r: Result<Vec<Vec<u8>>, DecodeError>)
    ensures
        match r {
            Ok(blobs) => {
                &&& parse_sidecar(data@) == Ok::<Seq<Seq<u8>>, SidecarFault>(contents(blobs@))
                &&& data@ == sidecar(contents(blobs@))
            },
            Err(e) => parse_sidecar(data@) matches Err(f) && e@ == sidecar_fault_text(f),
        },
        forall|blobs: Seq<Seq<u8>>|
            sidecar_fits(blobs) && data@ == #[trigger] sidecar(blobs) ==> (r matches Ok(out)
                && contents(out@) == blobs),
{
    proof {
        assert forall|blobs: Seq<Seq<u8>>|
            sidecar_fits(blobs) && data@ == #[trigger] sidecar(blobs) implies parse_sidecar(data@)
            == Ok::<Seq<Seq<u8>>, SidecarFault>(blobs) by {
            law_sidecar_round_trip(data@, blobs);
        }
    }
    if data.len() < 4 {
        return Err(DecodeError::new("Binary sidecar too short for count header"));
    }
    let count: usize = read_le32(data, 0) as usize;
    let possible: usize = (data.len() - 4) / 4;
    if count > possible {
        let mut msg = with_number("Binary sidecar count (", count as u64, ") exceeds maximum possible (");
        push_decimal(&mut msg, possible as u64);
        msg.append(")");
        return Err(DecodeError::new(msg));
    }
    let mut offset: usize = 4;
    let mut blobs: Vec<Vec<u8>> = Vec::new();
    let mut i: usize = 0;
    while i < count
        invariant
            i <= count,
            4 <= offset <= data@.len(),
            blobs@.len() == i,
            parse_sidecar(data@) == (match parse_frames(
                data@,
                offset as int,
                i as nat,
                count as nat,
            ) {
                Ok(rest) => Ok::<Seq<Seq<u8>>, SidecarFault>(contents(blobs@) + rest),
                Err(f) => Err(f),
            }),
            forall|all: Seq<Seq<u8>>|
                sidecar_fits(all) && data@ == #[trigger] sidecar(all) ==> parse_sidecar(data@)
                    == Ok::<Seq<Seq<u8>>, SidecarFault>(all),
        decreases count - i,
    {
        let start: usize = match offset.checked_add(4) {
            Some(start) => start,
            None => {
                return Err(
                    DecodeError::new(
                        with_number(
                            "Binary sidecar offset overflow at blob ",
                            i as u64,
                            " length header",
                        ),
                    ),
                );
            },
        };
        if start > data.len() {
            return Err(
                DecodeError::new(
                    with_number("Binary sidecar truncated at blob ", i as u64, " length header"),
                ),
            );
        }
        let len: usize = read_le32(data, offset) as usize;
        let end: usize = match start.checked_add(len) {
            Some(end) => end,
            None => {
                return Err(
                    DecodeError::new(
                        with_number("Binary sidecar offset overflow at blob ", i as u64, " data"),
                    ),
                );
            },
        };
        if end > data.len() {
            let mut msg = with_number("Binary sidecar truncated at blob ", i as u64, " data (need ");
            push_decimal(&mut msg, len as u64);
            msg.append(" bytes, have ");
            push_decimal(&mut msg, (data.len() - start) as u64);
            msg.append(")");
            return Err(DecodeError::new(msg));
        }
        let ghost before = contents(blobs@);
        let blob = slice_to_vec(slice_subrange(data, start, end));
        blobs.push(blob);
        proof {
            let head = data@.subrange(start as int, end as int);
            assert(contents(blobs@) =~= before.push(head));
            if let Ok(rest) = parse_frames(data@, end as int, (i + 1) as nat, count as nat) {
                assert(before + (seq![head] + rest) =~= before.push(head) + rest);
            }
        }
        offset = end;
        i += 1;
    }
    if offset != data.len() {
        let mut msg = with_number(
            "Binary sidecar has ",
            (data.len() - offset) as u64,
            " trailing bytes after all ",
        );
        push_decimal(&mut msg, count as u64);
        msg.append(" blobs");
        return Err(DecodeError::new(msg));
    }
    proof {
        assert(contents(blobs@) + Seq::<Seq<u8>>::empty() =~= contents(blobs@));
        law_sidecar_round_trip(data@, contents(blobs@));
    }
    Ok(blobs)
}

/// A decoded return value.
#[derive(Debug)]
pub enum FnReturn {
    /// JSON text, with no binary data in it.
    Json(String),
    /// Raw bytes (a single buffer).
    Binary(Vec<u8>),
    /// JSON text with a sidecar: `{"__bin__": N}` in the text refers to blob `N` of the sidecar
    /// (packed with [`encode_binaries`]).
    JsonWithBinaries(String, Vec<u8>),
}

/// What a [`FnReturn`] holds.
pub enum ReturnContents {
    /// JSON text.
    Json(Seq<char>),
    /// Raw bytes.
    Binary(Seq<u8>),
    /// JSON text and its sidecar.
    JsonWithBinaries(Seq<char>, Seq<u8>),
}

impl View for FnReturn {
    type V = ReturnContents;

    open spec fn view(&self) -> ReturnContents {
        match self {
            FnReturn::Json(json) => ReturnContents::Json(json@),
            FnReturn::Binary(data) => ReturnContents::Binary(data@),
            FnReturn::JsonWithBinaries(json, sidecar) => ReturnContents::JsonWithBinaries(
                json@,
                sidecar@,
            ),
        }
    }
}

impl Clone for FnReturn {
    fn clone(&self) -> (r: FnReturn)
        ensures
            r@ == self@,
    {
        match self {
            FnReturn::Json(json) => FnReturn::Json(json.clone()),
            FnReturn::Binary(data) => FnReturn::Binary(slice_to_vec(data.as_slice())),
            FnReturn::JsonWithBinaries(json, sidecar) => FnReturn::JsonWithBinaries(
                json.clone(),
                slice_to_vec(sidecar.as_slice()),
            ),
        }
    }
}

/// Reads a tagged return value: its contents, or the message of what is wrong with it.
pub open spec fn parse_return(data: Seq<u8>) -> Result<ReturnContents, Seq<char>> {
    if data.len() == 0 {
        Err("Empty return payload"@)
    } else if data[0] == TAG_JSON {
        let text = data.skip(1);
        if valid_utf8(text) {
            Ok(ReturnContents::Json(decode_utf8(text)))
        } else {
            Err("Invalid UTF-8 in JSON return: "@ + utf8_fault_text(utf8_fault(text)))
        }
    } else if data[0] == TAG_BINARY {
        Ok(ReturnContents::Binary(data.skip(1)))
    } else if data[0] == TAG_JSON_WITH_BINARIES {
        if data.len() < 5 {
            Err("JSON-with-binaries return too short for sidecar length header"@)
        } else {
            let end = 5 + le32_at(data, 1);
            if end > usize::MAX {
                Err("JSON-with-binaries sidecar length overflows usize"@)
            } else if data.len() < end {
                Err(
                    "JSON-with-binaries return truncated: need "@ + decimal(end) + " bytes, have "@
                        + decimal(data.len()),
                )
            } else {
                let text = data.skip(end as int);
                if valid_utf8(text) {
                    Ok(
                        ReturnContents::JsonWithBinaries(
                            decode_utf8(text),
                            data.subrange(5, end as int),
                        ),
                    )
                } else {
                    Err(
                        "Invalid UTF-8 in JSON-with-binaries return: "@ + utf8_fault_text(
                            utf8_fault(text),
                        ),
                    )
                }
            }
        }
    } else {
        Err("Unknown return tag: 0x"@ + hex_byte(data[0]))
    }
}

/// Reads a tagged return value: the first byte is the tag, the rest is the payload.
pub fn decode_return(data: &[u8]) -> (r: Result<FnReturn, DecodeError>)
    ensures
        match r {
            Ok(ret) => parse_return(data@) == Ok::<ReturnContents, Seq<char>>(ret@),
            Err(e) => parse_return(data@) == Err::<ReturnContents, Seq<char>>(e@),
        },
{
    if data.len() == 0 {
        return Err(DecodeError::new("Empty return payload"));
    }
    let tag: u8 = data[0];
    if tag == TAG_JSON {
        let text = slice_subrange(data, 1, data.len());
        assert(text@ =~= data@.skip(1));
        match core::str::from_utf8(text) {
            Ok(json) => Ok(FnReturn::Json(json.to_owned())),
            Err(e) => Err(
                DecodeError::new(
                    joined("Invalid UTF-8 in JSON return: ", utf8_error_string(&e).as_str()),
                ),
            ),
        }
    } else if tag == TAG_BINARY {
        let bytes = slice_subrange(data, 1, data.len());
        assert(bytes@ =~= data@.skip(1));
        Ok(FnReturn::Binary(slice_to_vec(bytes)))
    } else if tag == TAG_JSON_WITH_BINARIES {
        if data.len() < 5 {
            return Err(
                DecodeError::new("JSON-with-binaries return too short for sidecar length header"),
            );
        }
        let len: usize = read_le32(data, 1) as usize;
        let end: usize = match 5usize.checked_add(len) {
            Some(end) => end,
            None => {
                return Err(DecodeError::new("JSON-with-binaries sidecar length overflows usize"));
            },
        };
        if data.len() < end {
            let mut msg = with_number(
                "JSON-with-binaries return truncated: need ",
                end as u64,
                " bytes, have ",
            );
            push_decimal(&mut msg, data.len() as u64);
            return Err(DecodeError::new(msg));
        }
        let sidecar = slice_to_vec(slice_subrange(data, 5, end));
        let text = slice_subrange(data, end, data.len());
        assert(text@ =~= data@.skip(end as int));
        match core::str::from_utf8(text) {
            Ok(json) => Ok(FnReturn::JsonWithBinaries(json.to_owned(), sidecar)),
            Err(e) => Err(
                DecodeError::new(
                    joined(
                        "Invalid UTF-8 in JSON-with-binaries return: ",
                        utf8_error_string(&e).as_str(),
                    ),
                ),
            ),
        }
    } else {
        let mut msg = "Unknown return tag: 0x".to_owned();
        push_hex_byte(&mut msg, tag);
        Err(DecodeError::new(msg))
    }
}

/// The bytes by which contents travel.
pub open spec fn return_bytes(contents: ReturnContents) -> Seq<u8> {
    match contents {
        ReturnContents::Json(json) => seq![TAG_JSON] + encode_utf8(json),
        ReturnContents::Binary(data) => seq![TAG_BINARY] + data,
        ReturnContents::JsonWithBinaries(json, sidecar) => json_with_binaries(json, sidecar),
    }
}

/// The contents can be written: the sidecar's length fits its field.
pub open spec fn return_fits(contents: ReturnContents) -> bool {
    contents matches ReturnContents::JsonWithBinaries(_, sidecar) ==> sidecar.len() <= u32::MAX
}

/// Reading back what was written gives the same contents, and a payload is accepted exactly when
/// it is how the contents that come out are written.
pub proof fn law_return_round_trip(data: Seq<u8>, contents: ReturnContents)
    requires
        data.len() <= usize::MAX,
    ensures
        parse_return(data) == Ok::<ReturnContents, Seq<char>>(contents) <==> (data == return_bytes(
            contents,
        ) && return_fits(contents)),
{
    if parse_return(data) == Ok::<ReturnContents, Seq<char>>(contents) {
        match contents {
            ReturnContents::Json(json) => {
                vstd::utf8::decode_utf8_encode_utf8(data.skip(1));
            },
            ReturnContents::Binary(bytes) => {},
            ReturnContents::JsonWithBinaries(json, sidecar) => {
                let end = 5 + le32_at(data, 1);
                lemma_le32_split(data, 1);
                vstd::utf8::decode_utf8_encode_utf8(data.skip(end as int));
            },
        }
        assert(data =~= return_bytes(contents));
    }
    if data == return_bytes(contents) && return_fits(contents) {
        match contents {
            ReturnContents::Json(json) => {
                vstd::utf8::encode_utf8_valid_utf8(json);
                vstd::utf8::encode_utf8_decode_utf8(json);
                assert(data.skip(1) =~= encode_utf8(json));
            },
            ReturnContents::Binary(bytes) => {
                assert(data.skip(1) =~= bytes);
            },
            ReturnContents::JsonWithBinaries(json, sidecar) => {
                let end = 5 + sidecar.len();
                vstd::utf8::encode_utf8_valid_utf8(json);
                vstd::utf8::encode_utf8_decode_utf8(json);
                assert(data.subrange(1, 5) =~= le32(sidecar.len()));
                lemma_le32_join(sidecar.len(), data, 1);
                assert(data.subrange(5, end as int) =~= sidecar);
                assert(data.skip(end as int) =~= encode_utf8(json));
            },
        }
    }
}

/// The three kinds of return value never share an encoding, nor do two values of one kind.
pub proof fn law_return_injective(a: ReturnContents, b: ReturnContents)
    requires
        return_fits(a),
        return_fits(b),
        return_bytes(a) == return_bytes(b),
        return_bytes(a).len() <= usize::MAX,
    ensures
        a == b,
{
    let data = return_bytes(a);
    law_return_round_trip(data, a);
    law_return_round_trip(data, b);
    assert(parse_return(data) == Ok::<ReturnContents, Seq<char>>(a));
    assert(parse_return(data) == Ok::<ReturnContents, Seq<char>>(b));
}

// ── What the formats look like ───────────────────────────────────────

/// The bytes of a word count ones, 256s, 65536s and 16777216s, in this order, and that sum is what
/// is read where they stand.
pub proof fn law_words_are_little_endian(n: nat, data: Seq<u8>, offset: int)
    requires
        n <= u32::MAX,
        0 <= offset,
        offset + 4 <= data.len(),
    ensures
        le32(n).len() == 4,
        le32(n)[0] + 256 * le32(n)[1] + 65536 * le32(n)[2] + 16777216 * le32(n)[3] == n,
        data.subrange(offset, offset + 4) == le32(n) <==> le32_at(data, offset) == n,
        le32_at(data, offset) == data[offset] + 256 * data[offset + 1] + 65536 * data[offset + 2]
            + 16777216 * data[offset + 3],
{
    lemma_le32_digits(n as int);
    lemma_le32_split(data, offset);
    if data.subrange(offset, offset + 4) == le32(n) {
        lemma_le32_join(n, data, offset);
    }
}

/// A sidecar starts with the number of blobs. Each blob stands behind what the blobs before it take
/// up: its length, then its bytes.
pub proof fn law_sidecar_layout(blobs: Seq<Seq<u8>>, blob: Seq<u8>)
    ensures
        sidecar(Seq::empty()) == le32(0),
        sidecar(blobs).len() >= 4,
        sidecar(blobs).take(4) == le32(blobs.len()),
        sidecar(blobs.push(blob)).skip(4) == sidecar(blobs).skip(4) + le32(blob.len()) + blob,
{
    lemma_frames_push(blobs, blob);
    assert(frames(Seq::empty()) =~= Seq::<u8>::empty());
    assert(sidecar(Seq::empty()) =~= le32(0));
    assert(sidecar(blobs).take(4) =~= le32(blobs.len()));
    assert(sidecar(blobs).skip(4) =~= frames(blobs));
    assert(sidecar(blobs.push(blob)).skip(4) =~= frames(blobs.push(blob)));
}

/// Blobs can be sent unless there are 2^32 of them, one of them has 2^32 bytes, or all of them
/// together do not fit in memory, and what can be sent is also read.
pub proof fn law_blobs_that_can_be_sent(blobs: Seq<Seq<u8>>)
    ensures
        encode_fault(blobs) is None <==> {
            &&& blobs.len() < 0x1_0000_0000
            &&& forall|i: int| 0 <= i < blobs.len() ==> (#[trigger] blobs[i]).len() < 0x1_0000_0000
            &&& sidecar(blobs).len() <= usize::MAX
        },
        encode_fault(blobs) is None ==> parse_sidecar(sidecar(blobs)) == Ok::<
            Seq<Seq<u8>>,
            SidecarFault,
        >(blobs),
{
    lemma_no_fault_fits(blobs);
    if sidecar_fits(blobs) {
        law_sidecar_round_trip(sidecar(blobs), blobs);
    }
}

/// What is cut off or announces more than follows is refused, and so is what goes on behind its
/// end: bytes are read as blobs only where they are the count of the blobs and the blobs behind
/// their lengths, and nothing else.
pub proof fn law_malformed_sidecars_are_refused(data: Seq<u8>)
    requires
        data.len() <= usize::MAX,
    ensures
        data.len() < 4 ==> parse_sidecar(data) is Err,
        data.len() >= 4 && 4 * le32_at(data, 0) > data.len() - 4 ==> parse_sidecar(data) is Err,
        parse_sidecar(data) matches Ok(blobs) ==> blobs.len() == le32_at(data, 0) && data == sidecar(
            blobs,
        ),
{
    if parse_sidecar(data) is Ok {
        let blobs = parse_sidecar(data)->Ok_0;
        law_sidecar_round_trip(data, blobs);
        lemma_parse_frames_sound(data, 4, 0, le32_at(data, 0));
    }
}

/// A return value says by its first byte what it is: JSON text (0), bytes (1), or JSON text with a
/// sidecar (2), which then stands behind its length and before the text.
pub proof fn law_return_layout(contents: ReturnContents)
    ensures
        ({
            let data = return_bytes(contents);
            &&& data.len() > 0
            &&& match contents {
                ReturnContents::Json(json) => data[0] == 0 && data.skip(1) == encode_utf8(json),
                ReturnContents::Binary(bytes) => data[0] == 1 && data.skip(1) == bytes,
                ReturnContents::JsonWithBinaries(json, sidecar) => {
                    let end = 5 + sidecar.len() as int;
                    &&& data.len() >= end
                    &&& data[0] == 2
                    &&& data.subrange(1, 5) == le32(sidecar.len())
                    &&& data.subrange(5, end) == sidecar
                    &&& data.skip(end) == encode_utf8(json)
                },
            }
        }),
        return_fits(contents) <==> (contents matches ReturnContents::JsonWithBinaries(_, sidecar)
            ==> sidecar.len() < 0x1_0000_0000),
{
    let data = return_bytes(contents);
    match contents {
        ReturnContents::Json(json) => {
            assert(data.skip(1) =~= encode_utf8(json));
        },
        ReturnContents::Binary(bytes) => {
            assert(data.skip(1) =~= bytes);
        },
        ReturnContents::JsonWithBinaries(json, sidecar) => {
            let end = 5 + sidecar.len() as int;
            assert(data.subrange(1, 5) =~= le32(sidecar.len()));
            assert(data.subrange(5, end) =~= sidecar);
            assert(data.skip(end) =~= encode_utf8(json));
        },
    }
}

/// What is not the way in which some contents are written is refused: nothing at all, an unknown
/// first byte, or a sidecar that is cut off.
pub proof fn law_malformed_returns_are_refused(data: Seq<u8>)
    requires
        data.len() <= usize::MAX,
    ensures
        data.len() == 0 || data[0] > 2 ==> parse_return(data) is Err,
        data.len() > 0 && data[0] == 2 && (data.len() < 5 || data.len() < 5 + le32_at(data, 1))
            ==> parse_return(data) is Err,
        parse_return(data) matches Ok(contents) ==> return_fits(contents) && data == return_bytes(
            contents,
        ),
        data.len() > 0 && data[0] == 1 ==> parse_return(data) is Ok,
        data.len() > 0 && data[0] == 0 ==> (parse_return(data) is Ok <==> valid_utf8(data.skip(1))),
{
    if parse_return(data) is Ok {
        law_return_round_trip(data, parse_return(data)->Ok_0);
    }
}

/// The blobs of a list are the bytes of its items, in order.
pub proof fn law_contents_are_the_bytes<B: Blob>(list: Seq<B>, lent: Vec<Vec<u8>>, i: int)
    ensures
        contents(list).len() == list.len(),
        0 <= i < list.len() ==> contents(list)[i] == list[i].blob(),
        optional_contents(Some(&lent)) == Some(contents(lent@)),
        optional_contents(None) is None,
{
}

/// Bytes are sent as they are, and text as its UTF-8 bytes, whoever holds them.
pub proof fn law_blobs_are_their_bytes<const N: usize>(
    bytes: Vec<u8>,
    slice: &[u8],
    array: [u8; N],
    text: String,
    lent: &str,
)
    ensures
        bytes.blob() == bytes@,
        slice.blob() == slice@,
        (*slice).blob() == slice@,
        array.blob() == array@,
        text.blob() == encode_utf8(text@),
        lent.blob() == encode_utf8(lent@),
        (*lent).blob() == encode_utf8(lent@),
        Box::new(bytes).blob() == bytes@,
{
}

/// A message is the text that it was made of.
pub proof fn law_messages_are_their_text(text: String, lent: &str)
    ensures
        text.message() == text@,
        lent.message() == lent@,
{
}

/// A return value holds the text and the bytes that it was made of.
pub proof fn law_return_holds_its_parts(json: String, bytes: Vec<u8>)
    ensures
        FnReturn::Json(json)@ == ReturnContents::Json(json@),
        FnReturn::Binary(bytes)@ == ReturnContents::Binary(bytes@),
        FnReturn::JsonWithBinaries(json, bytes)@ == ReturnContents::JsonWithBinaries(json@, bytes@),
{
}

/// A sidecar that is cut off anywhere is refused.
pub proof fn law_sidecar_rejects_truncation(blobs: Seq<Seq<u8>>, n: int)
    requires
        sidecar_fits(blobs),
        0 <= n < sidecar(blobs).len(),
    ensures
        parse_sidecar(sidecar(blobs).take(n)) is Err,
{
    let whole = sidecar(blobs);
    let part = whole.take(n);
    if parse_sidecar(part) is Ok {
        let others = parse_sidecar(part)->Ok_0;
        law_sidecar_round_trip(part, others);
        law_sidecar_round_trip(whole, blobs);
        assert(whole =~= part + whole.skip(n));
        law_sidecar_rejects_trailing_bytes(others, whole.skip(n));
    }
}

/// Why a sidecar is refused is what is wrong with it: too many blobs are announced for the bytes that
/// follow, a blob among those announced is cut off and needs more bytes than there are, or bytes
/// follow the last one.
pub proof fn law_sidecar_faults(data: Seq<u8>)
    requires
        data.len() <= usize::MAX,
    ensures
        parse_sidecar(data) matches Err(f) ==> match f {
            SidecarFault::ShortHeader => data.len() < 4,
            SidecarFault::TooMany { count, possible } => {
                &&& data.len() >= 4
                &&& count == le32_at(data, 0)
                &&& 4 * possible <= data.len() - 4 < 4 * possible + 4
                &&& count > possible
            },
            SidecarFault::HeaderOverflow { blob } | SidecarFault::HeaderTruncated { blob }
            | SidecarFault::DataOverflow { blob } => data.len() >= 4 && blob < le32_at(data, 0),
            SidecarFault::DataTruncated { blob, need, have } => {
                &&& data.len() >= 4
                &&& blob < le32_at(data, 0)
                &&& have < need
                &&& have <= data.len() - 8
            },
            SidecarFault::Trailing { extra, count } => {
                &&& data.len() >= 4
                &&& count == le32_at(data, 0)
                &&& 0 < extra <= data.len() - 4
            },
        },
{
    if data.len() >= 4 {
        lemma_frame_faults(data, 4, 0, le32_at(data, 0));
    }
}

proof fn lemma_frame_faults(data: Seq<u8>, offset: int, i: nat, count: nat)
    requires
        4 <= offset <= data.len() <= usize::MAX,
        i <= count,
    ensures
        parse_frames(data, offset, i, count) matches Err(f) ==> match f {
            SidecarFault::ShortHeader | SidecarFault::TooMany { .. } => false,
            SidecarFault::HeaderOverflow { blob } | SidecarFault::HeaderTruncated { blob }
            | SidecarFault::DataOverflow { blob } => blob < count,
            SidecarFault::DataTruncated { blob, need, have } => blob < count && have < need && have
                <= data.len() - 8,
            SidecarFault::Trailing { extra, count: n } => n == count && 0 < extra <= data.len() - 4,
        },
    decreases count - i,
{
    if i < count && offset + 4 <= data.len() {
        let end = offset + 4 + le32_at(data, offset);
        if end <= data.len() {
            lemma_frame_faults(data, end, i + 1, count);
        }
    }
}

/// Messages about a sidecar name the numbers that matter: what was announced and what is possible,
/// which blob is cut off, what it needs and what there is, and how many bytes are left over.
pub proof fn law_sidecar_messages_name_the_numbers(a: nat, b: nat, c: nat)
    ensures
        ({
            let text = sidecar_fault_text(SidecarFault::TooMany { count: a, possible: b });
            &&& ("Binary sidecar count ("@ + decimal(a)).is_prefix_of(text)
            &&& ("maximum possible ("@ + decimal(b) + ")"@).is_suffix_of(text)
        }),
        ({
            let text = sidecar_fault_text(
                SidecarFault::DataTruncated { blob: a, need: b, have: c },
            );
            &&& ("Binary sidecar truncated at blob "@ + decimal(a)).is_prefix_of(text)
            &&& ("need "@ + decimal(b) + " bytes, have "@ + decimal(c) + ")"@).is_suffix_of(text)
        }),
        ({
            let text = sidecar_fault_text(SidecarFault::Trailing { extra: a, count: b });
            &&& ("Binary sidecar has "@ + decimal(a)).is_prefix_of(text)
            &&& ("after all "@ + decimal(b) + " blobs"@).is_suffix_of(text)
        }),
        ("Binary sidecar truncated at blob "@ + decimal(a)).is_prefix_of(
            sidecar_fault_text(SidecarFault::HeaderTruncated { blob: a }),
        ),
{
    reveal_strlit(") exceeds maximum possible (");
    reveal_strlit(") exceeds ");
    reveal_strlit("maximum possible (");
    reveal_strlit(" data (need ");
    reveal_strlit(" data (");
    reveal_strlit("need ");
    reveal_strlit(" trailing bytes after all ");
    reveal_strlit(" trailing bytes ");
    reveal_strlit("after all ");
    assert(") exceeds maximum possible ("@ =~= ") exceeds "@ + "maximum possible ("@);
    assert(" data (need "@ =~= " data ("@ + "need "@);
    assert(" trailing bytes after all "@ =~= " trailing bytes "@ + "after all "@);
    assert(sidecar_fault_text(SidecarFault::TooMany { count: a, possible: b }) =~= (
    "Binary sidecar count ("@ + decimal(a)) + ") exceeds "@ + ("maximum possible ("@ + decimal(b)
        + ")"@));
    assert(sidecar_fault_text(SidecarFault::DataTruncated { blob: a, need: b, have: c }) =~= (
    "Binary sidecar truncated at blob "@ + decimal(a)) + " data ("@ + ("need "@ + decimal(b)
        + " bytes, have "@ + decimal(c) + ")"@));
    assert(sidecar_fault_text(SidecarFault::Trailing { extra: a, count: b }) =~= (
    "Binary sidecar has "@ + decimal(a)) + " trailing bytes "@ + ("after all "@ + decimal(b)
        + " blobs"@));
}

/// An unknown first byte is named in the message.
pub proof fn law_unknown_tags_are_named(data: Seq<u8>)
    requires
        data.len() > 0,
        data[0] > 2,
    ensures
        parse_return(data) matches Err(text) && hex_byte(data[0]).is_suffix_of(text),
{
}

} // verus!
