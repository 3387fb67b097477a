//! Log packets: the datagram format in which programs hand their log
//! messages over, and the reader that turns one datagram into a message.
//!
//! A datagram starts with the metadata, as little-endian integers: process
//! and thread (8 bytes each), time (8), severity (4) and the number of
//! dropped messages (4). The tags follow, each as one byte of length and
//! that many bytes of text; a zero byte ends the tags. The message follows,
//! ended by a zero byte.

use vstd::prelude::*;
use vstd::slice::slice_subrange;
use vstd::utf8::{decode_utf8, encode_utf8, valid_utf8};
use byteorder::{ByteOrder, LittleEndian};

verus! {

pub const FX_LOG_MAX_DATAGRAM_LEN: usize = 2032;

pub const FX_LOG_MAX_TAGS: usize = 5;

pub const FX_LOG_MAX_TAG_LEN: usize = 64;

/// Number of bytes that the metadata takes at the start of a datagram.
pub const METADATA_SIZE: usize = 32;

/// The metadata of a log packet.
#[derive(Debug, Copy, Clone, Default, Eq, PartialEq, Structural)]
pub struct fx_log_metadata_t {
    pub pid: u64,
    pub tid: u64,
    pub time: i64,
    pub severity: i32,
    pub dropped_logs: u32,
}

/// A log packet as a program fills it in: the metadata, then the tags and
/// the message as described for the datagram.
#[derive(Clone)]
pub struct fx_log_packet_t {
    pub metadata: fx_log_metadata_t,
    pub data: [i8; 2000],
}

impl Default for fx_log_packet_t {
    fn default() -> (p: fx_log_packet_t)
        ensures
            p.metadata == (fx_log_metadata_t { pid: 0, tid: 0, time: 0, severity: 0, dropped_logs: 0 }),
            forall|i: int| 0 <= i < 2000 ==> p.data[i] == 0,
    {
        fx_log_packet_t {
            data: [0i8; 2000],
            metadata: fx_log_metadata_t { pid: 0, tid: 0, time: 0, severity: 0, dropped_logs: 0 },
        }
    }
}

/// A log message.
#[derive(Debug, Clone, PartialEq, Eq)]
pub struct LogMessage {
    pub pid: u64,
    pub tid: u64,
    pub time: i64,
    pub severity: i32,
    pub dropped_logs: u32,
    pub tags: Vec<String>,
    pub msg: String,
}

pub struct LogMessageView {
    pub pid: u64,
    pub tid: u64,
    pub time: i64,
    pub severity: i32,
    pub dropped_logs: u32,
    pub tags: Seq<Seq<char>>,
    pub msg: Seq<char>,
}

impl View for LogMessage {
    type V = LogMessageView;

    open spec fn view(&self) -> LogMessageView {
        LogMessageView {
            pid: self.pid,
            tid: self.tid,
            time: self.time,
            severity: self.severity,
            dropped_logs: self.dropped_logs,
            tags: Seq::new(self.tags@.len(), |i: int| self.tags@[i]@),
            msg: self.msg@,
        }
    }
}

/// The number that the bytes spell in little-endian order: the first byte
/// counts least.
pub open spec fn le_value(bytes: Seq<u8>) -> nat
    decreases bytes.len(),
{
    if bytes.len() == 0 {
        0
    } else {
        bytes[0] as nat + 256 * le_value(bytes.drop_first())
    }
}

/// Reads the first eight bytes as a little-endian unsigned number, by
/// `byteorder::LittleEndian::read_u64`, which panics on a shorter buffer.
#[verifier::external_body]
fn read_u64_le(buf: &[u8]) -> (n: u64)
    requires
        buf@.len() >= 8,
    ensures
        n == le_value(buf@.subrange(0, 8)),
{
    LittleEndian::read_u64(buf)
}

/// Reads the first eight bytes as a little-endian number in two's
/// complement, by `byteorder::LittleEndian::read_i64`, which panics on a
/// shorter buffer.
#[verifier::external_body]
fn read_i64_le(buf: &[u8]) -> (n: i64)
    requires
        buf@.len() >= 8,
    ensures
        n == (le_value(buf@.subrange(0, 8)) as u64) as i64,
{
    LittleEndian::read_i64(buf)
}

/// Reads the first four bytes as a little-endian number in two's complement,
/// by `byteorder::LittleEndian::read_i32`, which panics on a shorter buffer.
#[verifier::external_body]
fn read_i32_le(buf: &[u8]) -> (n: i32)
    requires
        buf@.len() >= 4,
    ensures
        n == (le_value(buf@.subrange(0, 4)) as u32) as i32,
{
    LittleEndian::read_i32(buf)
}

/// Reads the first four bytes as a little-endian unsigned number, by
/// `byteorder::LittleEndian::read_u32`, which panics on a shorter buffer.
#[verifier::external_body]
fn read_u32_le(buf: &[u8]) -> (n: u32)
    requires
        buf@.len() >= 4,
    ensures
        n == le_value(buf@.subrange(0, 4)),
{
    LittleEndian::read_u32(buf)
}

/// The text that the bytes encode, by `std::str::from_utf8`: there is one
/// exactly when the bytes are valid UTF-8, and its encoding is these bytes.
#[verifier::external_body]
fn text_of(bytes: &[u8]) -> (text: Option<String>)
    ensures
        text is Some <==> valid_utf8(bytes@),
        text is Some ==> encode_utf8(text->0@) == bytes@,
{
    match std::str::from_utf8(bytes) {
        Ok(s) => Some(s.to_owned()),
        Err(_) => None,
    }
}

/// The tags of a datagram, and the position of the zero byte that ends them.
pub struct TagsView {
    pub tags: Seq<Seq<char>>,
    pub end: int,
}

/// The tags that start at `pos`, when `taken` tags came before them.
///
/// A zero byte at `pos` ends the tags. Any other byte is the length of a tag,
/// which must be shorter than the longest tag allowed, lie within the
/// datagram, be valid UTF-8, and not be one tag too many; the next tag starts
/// right after it. Tags that run to the end of the datagram without a zero
/// byte are no tags.
pub open spec fn spec_tags(bytes: Seq<u8>, pos: int, taken: nat) -> Option<TagsView>
    decreases bytes.len() - pos,
{
    if pos < 0 || pos >= bytes.len() {
        None
    } else if bytes[pos] == 0 {
        Some(TagsView { tags: Seq::empty(), end: pos })
    } else {
        let stop = pos + bytes[pos] + 1;
        let tag = bytes.subrange(pos + 1, stop);
        if taken >= FX_LOG_MAX_TAGS || bytes[pos] > FX_LOG_MAX_TAG_LEN - 1 || stop > bytes.len()
            || !valid_utf8(tag) {
            None
        } else {
            match spec_tags(bytes, stop, taken + 1) {
                None => None,
                Some(rest) => Some(TagsView { tags: seq![decode_utf8(tag)] + rest.tags, end: rest.end }),
            }
        }
    }
}

/// The position of the first zero byte at or after `from`, or the length of
/// `bytes` if there is none.
pub open spec fn first_nul_from(bytes: Seq<u8>, from: int) -> int
    decreases bytes.len() - from,
{
    if from < 0 || from >= bytes.len() {
        bytes.len() as int
    } else if bytes[from] == 0 {
        from
    } else {
        first_nul_from(bytes, from + 1)
    }
}

/// The metadata at the start of a datagram of at least `METADATA_SIZE` bytes.
pub open spec fn spec_metadata(bytes: Seq<u8>) -> fx_log_metadata_t {
    fx_log_metadata_t {
        pid: le_value(bytes.subrange(0, 8)) as u64,
        tid: le_value(bytes.subrange(8, 16)) as u64,
        time: (le_value(bytes.subrange(16, 24)) as u64) as i64,
        severity: (le_value(bytes.subrange(24, 28)) as u32) as i32,
        dropped_logs: le_value(bytes.subrange(28, 32)) as u32,
    }
}

/// The message that a datagram holds, and the position of the zero byte that
/// ends its text.
///
/// The datagram must hold the metadata and at least one byte more, and end
/// in a zero byte. Its tags must be well formed, and the text of the message,
/// which runs from behind the tags to the next zero byte, must be there and
/// be valid UTF-8.
pub open spec fn spec_convert(bytes: Seq<u8>) -> Option<(LogMessageView, int)> {
    if bytes.len() < METADATA_SIZE + 1 || bytes.last() != 0 {
        None
    } else {
        match spec_tags(bytes, METADATA_SIZE as int, 0) {
            None => None,
            Some(t) => {
                let stop = first_nul_from(bytes, t.end + 1);
                let text = bytes.subrange(t.end + 1, stop);
                if t.end + 1 >= bytes.len() || !valid_utf8(text) {
                    None
                } else {
                    let m = spec_metadata(bytes);
                    Some(
                        (
                            LogMessageView {
                                pid: m.pid,
                                tid: m.tid,
                                time: m.time,
                                severity: m.severity,
                                dropped_logs: m.dropped_logs,
                                tags: t.tags,
                                msg: decode_utf8(text),
                            },
                            stop,
                        ),
                    )
                }
            },
        }
    }
}

/// The tags `rest`, found after the tags `before`.
pub open spec fn after_tags(before: Seq<Seq<char>>, rest: Option<TagsView>) -> Option<TagsView> {
    match rest {
        None => None,
        Some(r) => Some(TagsView { tags: before + r.tags, end: r.end }),
    }
}

/// The model of a list of tags.
pub open spec fn tags_view(tags: Seq<String>) -> Seq<Seq<char>> {
    Seq::new(tags.len(), |i: int| tags[i]@)
}

/// The little-endian number of a few bytes fits in as many bytes.
proof fn lemma_le_value_bound(bytes: Seq<u8>)
    ensures
        bytes.len() == 4 ==> le_value(bytes) <= u32::MAX,
        bytes.len() == 8 ==> le_value(bytes) <= u64::MAX,
{
    reveal_with_fuel(le_value, 9);
}

/// Reads the metadata at the start of a datagram.
pub fn read_metadata(bytes: &[u8]) -> (m: fx_log_metadata_t)
    requires
        bytes@.len() >= METADATA_SIZE,
    ensures
        m == spec_metadata(bytes@),
{
    proof {
        assert(bytes@.subrange(0, 8).subrange(0, 8) =~= bytes@.subrange(0, 8));
        assert(bytes@.subrange(8, 16).subrange(0, 8) =~= bytes@.subrange(8, 16));
        assert(bytes@.subrange(16, 24).subrange(0, 8) =~= bytes@.subrange(16, 24));
        assert(bytes@.subrange(24, 28).subrange(0, 4) =~= bytes@.subrange(24, 28));
        assert(bytes@.subrange(28, 32).subrange(0, 4) =~= bytes@.subrange(28, 32));
        lemma_le_value_bound(bytes@.subrange(0, 8));
        lemma_le_value_bound(bytes@.subrange(8, 16));
        lemma_le_value_bound(bytes@.subrange(28, 32));
    }
    fx_log_metadata_t {
        pid: read_u64_le(slice_subrange(bytes, 0, 8)),
        tid: read_u64_le(slice_subrange(bytes, 8, 16)),
        time: read_i64_le(slice_subrange(bytes, 16, 24)),
        severity: read_i32_le(slice_subrange(bytes, 24, 28)),
        dropped_logs: read_u32_le(slice_subrange(bytes, 28, 32)),
    }
}

/// Reads the tags of a datagram, which start right behind the metadata.
/// Returns them with the position of the zero byte that ends them.
pub fn read_tags(bytes: &[u8]) -> (r: Option<(Vec<String>, usize)>)
    requires
        bytes@.len() > METADATA_SIZE,
    ensures
        match r {
            Some((tags, end)) => spec_tags(bytes@, METADATA_SIZE as int, 0) == Some(
                TagsView { tags: tags_view(tags@), end: end as int },
            ),
            None => spec_tags(bytes@, METADATA_SIZE as int, 0) is None,
        },
        r is Some ==> METADATA_SIZE <= (r->Some_0).1 < bytes@.len(),
{
    let ghost target = spec_tags(bytes@, METADATA_SIZE as int, 0);
    let len = bytes.len();
    let mut tags: Vec<String> = Vec::new();
    let mut pos: usize = METADATA_SIZE;
    proof {
        assert(tags_view(tags@) + spec_tags(bytes@, pos as int, 0)->0.tags =~= spec_tags(
            bytes@,
            pos as int,
            0,
        )->0.tags);
    }
    loop
        invariant
            len == bytes@.len(),
            METADATA_SIZE <= pos < len,
            tags@.len() <= FX_LOG_MAX_TAGS,
            target == spec_tags(bytes@, METADATA_SIZE as int, 0),
            target == after_tags(tags_view(tags@), spec_tags(bytes@, pos as int, tags@.len())),
        decreases len - pos,
    {
        let tag_len: usize = bytes[pos] as usize;
        if tag_len == 0 {
            proof {
                assert(tags_view(tags@) + Seq::<Seq<char>>::empty() =~= tags_view(tags@));
            }
            return Some((tags, pos));
        }
        if tags.len() == FX_LOG_MAX_TAGS {
            return None;
        }
        if tag_len > FX_LOG_MAX_TAG_LEN - 1 {
            return None;
        }
        if tag_len >= len - pos {
            return None;
        }
        let stop = pos + tag_len + 1;
        let tag = match text_of(slice_subrange(bytes, pos + 1, stop)) {
            Some(t) => t,
            None => {
                return None;
            },
        };
        proof {
            vstd::utf8::encode_utf8_decode_utf8(tag@);
            let rest = spec_tags(bytes@, stop as int, (tags@.len() + 1) as nat);
            if rest is Some {
                assert(tags_view(tags@.push(tag)) + rest->0.tags =~= tags_view(tags@) + (seq![tag@]
                    + rest->0.tags));
            }
        }
        tags.push(tag);
        pos = stop;
        if pos >= len {
            return None;
        }
    }
}

/// Reads one datagram. Returns the message that it holds with the position
/// of the zero byte that ends the text of the message, or `None` if the
/// datagram is malformed.
pub fn convert_to_log_message(bytes: &[u8]) -> (r: Option<(LogMessage, usize)>)
    ensures
        match r {
            Some((message, end)) => spec_convert(bytes@) == Some((message@, end as int)),
            None => spec_convert(bytes@) is None,
        },
{
    let len = bytes.len();
    if len < METADATA_SIZE + 1 || bytes[len - 1] != 0 {
        return None;
    }
    let metadata = read_metadata(bytes);
    let (tags, end) = match read_tags(bytes) {
        Some(t) => t,
        None => {
            return None;
        },
    };
    if end + 1 >= len {
        return None;
    }
    let mut i: usize = end + 1;
    while bytes[i] != 0
        invariant
            len == bytes@.len(),
            end + 1 <= i < len,
            bytes@[len - 1] == 0,
            first_nul_from(bytes@, end + 1) == first_nul_from(bytes@, i as int),
        decreases len - i,
    {
        i += 1;
    }
    let msg = match text_of(slice_subrange(bytes, end + 1, i)) {
        Some(t) => t,
        None => {
            return None;
        },
    };
    proof {
        vstd::utf8::encode_utf8_decode_utf8(msg@);
    }
    let message = LogMessage {
        pid: metadata.pid,
        tid: metadata.tid,
        time: metadata.time,
        severity: metadata.severity,
        dropped_logs: metadata.dropped_logs,
        tags,
        msg,
    };
    Some((message, i))
}

} // verus!
