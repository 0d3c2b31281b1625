//! The `sync:` sub-protocol: four-byte tags followed by little-endian `u32`
//! lengths or fields.
use vstd::prelude::*;
use vstd::utf8::{decode_utf8, encode_utf8, valid_utf8};
use crate::error::AdbError;
use crate::host::{fail_tag, host_request, okay_tag, read_message, text_reply, Progress, Reply};
use crate::stat::{RemoteDirEntry, StatData};
use crate::text::{lossy_of, lossy_text};
use crate::wire::{
    decimal_chars, decimal_text, hex4_bytes, le32, le32_at, lemma_le32_round_trip, push_le32, read_le32,
};

verus! {

/// The tags of the sync protocol.
#[derive(Debug, Clone, Copy, PartialEq, Eq, Structural)]
pub enum SyncTag {
    Stat,
    List,
    Dent,
    Done,
    Data,
    Recv,
    Send,
    Quit,
    Fail,
    Okay,
}

/// The four ASCII bytes of a tag.
pub open spec fn tag_seq(t: SyncTag) -> Seq<u8> {
    match t {
        SyncTag::Stat => seq![83u8, 84u8, 65u8, 84u8],
        SyncTag::List => seq![76u8, 73u8, 83u8, 84u8],
        SyncTag::Dent => seq![68u8, 69u8, 78u8, 84u8],
        SyncTag::Done => seq![68u8, 79u8, 78u8, 69u8],
        SyncTag::Data => seq![68u8, 65u8, 84u8, 65u8],
        SyncTag::Recv => seq![82u8, 69u8, 67u8, 86u8],
        SyncTag::Send => seq![83u8, 69u8, 78u8, 68u8],
        SyncTag::Quit => seq![81u8, 85u8, 73u8, 84u8],
        SyncTag::Fail => fail_tag(),
        SyncTag::Okay => okay_tag(),
    }
}

/// A sync request: tag, payload length, payload.
pub open spec fn sync_frame(t: SyncTag, payload: Seq<u8>) -> Seq<u8> {
    tag_seq(t) + le32(payload.len()) + payload
}

/// Whether the four bytes at `at` are the tag `t`.
pub open spec fn tag_at(buf: Seq<u8>, at: int, t: SyncTag) -> bool {
    buf.subrange(at, at + 4) == tag_seq(t)
}

fn tag_bytes(t: SyncTag) -> (r: Vec<u8>)
    ensures
        r@ == tag_seq(t),
{
    let r = match t {
        SyncTag::Stat => vec![83u8, 84u8, 65u8, 84u8],
        SyncTag::List => vec![76u8, 73u8, 83u8, 84u8],
        SyncTag::Dent => vec![68u8, 69u8, 78u8, 84u8],
        SyncTag::Done => vec![68u8, 79u8, 78u8, 69u8],
        SyncTag::Data => vec![68u8, 65u8, 84u8, 65u8],
        SyncTag::Recv => vec![82u8, 69u8, 67u8, 86u8],
        SyncTag::Send => vec![83u8, 69u8, 78u8, 68u8],
        SyncTag::Quit => vec![81u8, 85u8, 73u8, 84u8],
        SyncTag::Fail => vec![70u8, 65u8, 73u8, 76u8],
        SyncTag::Okay => vec![79u8, 75u8, 65u8, 89u8],
    };
    assert(r@ =~= tag_seq(t));
    r
}

/// Whether the four bytes at `at` are the tag `t`.
pub fn is_tag(buf: &[u8], at: usize, t: SyncTag) -> (r: bool)
    requires
        at + 4 <= buf@.len(),
    ensures
        r == tag_at(buf@, at as int, t),
{
    let tag = tag_bytes(t);
    let ghost s = buf@.subrange(at as int, at + 4);
    let r = buf[at] == tag[0] && buf[at + 1] == tag[1] && buf[at + 2] == tag[2] && buf[at + 3]
        == tag[3];
    if r {
        assert(s =~= tag_seq(t));
    } else {
        assert(s[0] == buf@[at as int] && s[1] == buf@[at + 1] && s[2] == buf@[at + 2] && s[3]
            == buf@[at + 3]);
    }
    r
}

fn frame(t: SyncTag, payload: &[u8]) -> (r: Result<Vec<u8>, AdbError>)
    ensures
        r is Ok <==> payload@.len() < 0x1_0000_0000,
        r matches Ok(v) ==> v@ == sync_frame(t, payload@),
        r matches Err(e) ==> e is Argument,
{
    if payload.len() > 0xffff_ffff {
        return Err(AdbError::Argument(String::from_str("sync payload is longer than 4 GiB")));
    }
    let mut r = tag_bytes(t);
    push_le32(&mut r, payload.len() as u32);
    r.extend_from_slice(payload);
    Ok(r)
}

/// `sync:` in ASCII.
pub open spec fn sync_command() -> Seq<u8> {
    seq![115u8, 121u8, 110u8, 99u8, 58u8]
}

/// The host request that switches the connection to the sync protocol.
pub fn sync_entry_request() -> (r: Vec<u8>)
    ensures
        r@ == host_request(sync_command()),
{
    let mut r = hex4_bytes(5);
    r.push(115u8);
    r.push(121u8);
    r.push(110u8);
    r.push(99u8);
    r.push(58u8);
    assert(r@ =~= host_request(sync_command()));
    r
}

/// `STAT` of the plain path, as sent for the directory test and before a
/// sync push.
pub fn stat_request(path: &str) -> (r: Result<Vec<u8>, AdbError>)
    ensures
        r is Ok <==> encode_utf8(path@).len() < 0x1_0000_0000,
        r matches Ok(v) ==> v@ == sync_frame(SyncTag::Stat, encode_utf8(path@)),
{
    frame(SyncTag::Stat, path.as_bytes())
}

/// `STAT` of a path with a trailing NUL that the length counts, as sent for
/// the metadata of a pulled file.
pub fn stat_request_nul(path: &str) -> (r: Result<Vec<u8>, AdbError>)
    ensures
        r is Ok <==> encode_utf8(path@).len() + 1 < 0x1_0000_0000,
        r matches Ok(v) ==> v@ == sync_frame(SyncTag::Stat, encode_utf8(path@).push(0u8)),
{
    let mut payload: Vec<u8> = Vec::new();
    payload.extend_from_slice(path.as_bytes());
    payload.push(0u8);
    frame(SyncTag::Stat, payload.as_slice())
}

/// `LIST` of a remote directory.
pub fn list_request(path: &str) -> (r: Result<Vec<u8>, AdbError>)
    ensures
        r is Ok <==> encode_utf8(path@).len() < 0x1_0000_0000,
        r matches Ok(v) ==> v@ == sync_frame(SyncTag::List, encode_utf8(path@)),
{
    frame(SyncTag::List, path.as_bytes())
}

/// `RECV` of a remote file.
pub fn recv_request(path: &str) -> (r: Result<Vec<u8>, AdbError>)
    ensures
        r is Ok <==> encode_utf8(path@).len() < 0x1_0000_0000,
        r matches Ok(v) ==> v@ == sync_frame(SyncTag::Recv, encode_utf8(path@)),
{
    frame(SyncTag::Recv, path.as_bytes())
}

/// The argument of `SEND`: the remote path, a comma, and the file mode in
/// decimal.
pub open spec fn send_target(path: Seq<char>, mode: u32) -> Seq<char> {
    path + ","@ + decimal_chars(mode as nat)
}

/// `SEND` of a file to a remote path with the given mode.
pub fn send_request(path: &str, mode: u32) -> (r: Result<Vec<u8>, AdbError>)
    ensures
        r is Ok <==> encode_utf8(send_target(path@, mode)).len() < 0x1_0000_0000,
        r matches Ok(v) ==> v@ == sync_frame(SyncTag::Send, encode_utf8(send_target(path@, mode))),
        r matches Err(e) ==> e is Argument,
{
    let target = String::from_str(path).concat(",").concat(decimal_text(mode as u64).as_str());
    assert(target@ == send_target(path@, mode));
    frame(SyncTag::Send, target.as_str().as_bytes())
}

/// One `DATA` frame of file contents.
pub fn data_frame(chunk: &[u8]) -> (r: Result<Vec<u8>, AdbError>)
    ensures
        r is Ok <==> chunk@.len() < 0x1_0000_0000,
        r matches Ok(v) ==> v@ == sync_frame(SyncTag::Data, chunk@),
{
    frame(SyncTag::Data, chunk)
}

/// A `DATA` frame reads back as the chunk it carries: its header decodes as
/// `DATA` with the chunk's length, and the chunk follows unchanged.
pub proof fn lemma_data_frame_reads_back(chunk: Seq<u8>)
    requires
        chunk.len() < 0x1_0000_0000,
    ensures
        tag_at(sync_frame(SyncTag::Data, chunk), 0, SyncTag::Data),
        le32_at(sync_frame(SyncTag::Data, chunk), 4) == chunk.len(),
        sync_frame(SyncTag::Data, chunk).subrange(8, 8 + chunk.len() as int) == chunk,
{
    let f = sync_frame(SyncTag::Data, chunk);
    lemma_le32_round_trip(chunk.len());
    assert(f.subrange(0, 4) =~= tag_seq(SyncTag::Data));
    assert(f.subrange(4, 8) =~= le32(chunk.len()));
    assert(le32_at(f, 4) == le32_at(le32(chunk.len()), 0));
    assert(f.subrange(8, 8 + chunk.len() as int) =~= chunk);
}

/// A `STAT` reply built from a mode, size and mtime decodes to a record
/// with exactly those fields.
pub proof fn lemma_stat_reply_reads_back(mode: u32, size: u32, mtime: u32)
    ensures
        ({
            let buf = tag_seq(SyncTag::Stat) + le32(mode as nat) + le32(size as nat) + le32(mtime as nat);
            &&& buf.len() == 16
            &&& tag_at(buf, 0, SyncTag::Stat)
            &&& le32_at(buf, 4) == mode
            &&& le32_at(buf, 8) == size
            &&& le32_at(buf, 12) == mtime
        }),
{
    let buf = tag_seq(SyncTag::Stat) + le32(mode as nat) + le32(size as nat) + le32(mtime as nat);
    lemma_le32_round_trip(mode as nat);
    lemma_le32_round_trip(size as nat);
    lemma_le32_round_trip(mtime as nat);
    assert(buf.subrange(0, 4) =~= tag_seq(SyncTag::Stat));
    assert(le32_at(buf, 4) == le32_at(le32(mode as nat), 0));
    assert(le32_at(buf, 8) == le32_at(le32(size as nat), 0));
    assert(le32_at(buf, 12) == le32_at(le32(mtime as nat), 0));
}

/// The `DATA` frames of a sequence of chunks, in order.
pub open spec fn data_frames(chunks: Seq<Seq<u8>>) -> Seq<u8>
    decreases chunks.len(),
{
    if chunks.len() == 0 {
        Seq::empty()
    } else {
        sync_frame(SyncTag::Data, chunks[0]) + data_frames(chunks.drop_first())
    }
}

/// The chunks put back together.
pub open spec fn joined_chunks(chunks: Seq<Seq<u8>>) -> Seq<u8>
    decreases chunks.len(),
{
    if chunks.len() == 0 {
        Seq::empty()
    } else {
        chunks[0] + joined_chunks(chunks.drop_first())
    }
}

/// What a pull collects from a `RECV` reply, frame by frame as
/// `decode_recv_header` reads them: the `DATA` payloads in order up to
/// `DONE`, passing over other tags; `None` for `FAIL` or a reply cut short.
pub open spec fn recv_content(reply: Seq<u8>) -> Option<Seq<u8>>
    decreases reply.len(),
{
    if reply.len() < 8 {
        None
    } else if tag_at(reply, 0, SyncTag::Data) {
        let n = le32_at(reply, 4) as int;
        if reply.len() < 8 + n {
            None
        } else {
            match recv_content(reply.subrange(8 + n, reply.len() as int)) {
                Some(rest) => Some(reply.subrange(8, 8 + n) + rest),
                None => None,
            }
        }
    } else if tag_at(reply, 0, SyncTag::Done) {
        Some(Seq::empty())
    } else if tag_at(reply, 0, SyncTag::Fail) {
        None
    } else {
        recv_content(reply.subrange(8, reply.len() as int))
    }
}

/// Push then pull reproduces the file: whatever chunks a push cut the file
/// into (each under 4 GiB), when the server sends back those `DATA` frames
/// and a `DONE`, the pull collects exactly the file's bytes.
pub proof fn lemma_push_pull_round_trip(chunks: Seq<Seq<u8>>, mtime: u32)
    requires
        forall|i: int| 0 <= i < chunks.len() ==> (#[trigger] chunks[i]).len() < 0x1_0000_0000,
    ensures
        recv_content(data_frames(chunks) + tag_seq(SyncTag::Done) + le32(mtime as nat)) == Some(
            joined_chunks(chunks),
        ),
    decreases chunks.len(),
{
    let done = tag_seq(SyncTag::Done) + le32(mtime as nat);
    let all = data_frames(chunks) + tag_seq(SyncTag::Done) + le32(mtime as nat);
    if chunks.len() == 0 {
        assert(all =~= done);
        assert(all.subrange(0, 4) =~= tag_seq(SyncTag::Done));
        assert(all.subrange(0, 4)[1] != tag_seq(SyncTag::Data)[1]);
    } else {
        let c = chunks[0];
        let tail = chunks.drop_first();
        assert forall|i: int| 0 <= i < tail.len() implies (#[trigger] tail[i]).len() < 0x1_0000_0000 by {
            assert(tail[i] == chunks[i + 1]);
        }
        lemma_push_pull_round_trip(tail, mtime);
        let f = sync_frame(SyncTag::Data, c);
        let rest = data_frames(tail) + tag_seq(SyncTag::Done) + le32(mtime as nat);
        assert(data_frames(chunks) == f + data_frames(tail));
        assert(all =~= f + rest);
        lemma_data_frame_reads_back(c);
        let n = c.len() as int;
        assert(f.len() == 8 + n);
        assert(all.subrange(0, 4) =~= f.subrange(0, 4));
        assert(tag_at(all, 0, SyncTag::Data));
        assert(all[4] == f[4] && all[5] == f[5] && all[6] == f[6] && all[7] == f[7]);
        assert(le32_at(all, 4) == le32_at(f, 4));
        assert(all.subrange(8, 8 + n) =~= f.subrange(8, 8 + n));
        assert(all.subrange(8 + n, all.len() as int) =~= rest);
        assert(joined_chunks(chunks) == c + joined_chunks(tail));
    }
}

/// `DONE` with the file's modification time, which ends a `SEND`.
pub fn done_frame(mtime: u32) -> (r: Vec<u8>)
    ensures
        r@ == tag_seq(SyncTag::Done) + le32(mtime as nat),
{
    let mut r = tag_bytes(SyncTag::Done);
    push_le32(&mut r, mtime);
    r
}

/// `QUIT`, which ends the sync session.
pub fn quit_frame() -> (r: Vec<u8>)
    ensures
        r@ == tag_seq(SyncTag::Quit),
{
    tag_bytes(SyncTag::Quit)
}

/// The reply to `STAT`: a record, no record (any tag other than `STAT`), or
/// bytes cut short.
pub open spec fn stat_reply_ok(buf: Seq<u8>, eof: bool, found: bool) -> bool {
    &&& (buf.len() < 4 ==> eof && !found)
    &&& (buf.len() >= 4 && !tag_at(buf, 0, SyncTag::Stat) ==> !found)
    &&& (buf.len() >= 4 && tag_at(buf, 0, SyncTag::Stat) ==> buf.len() >= 16 && found)
}

/// Decodes the reply to `STAT`. `Ok(None)` stands for a reply without a
/// record, which the server gives for a path that it cannot stat.
pub fn decode_stat_reply(buf: &[u8], eof: bool) -> (r: Progress<Result<Option<StatData>, AdbError>>)
    ensures
        buf@.len() < 4 && !eof ==> r == Progress::<Result<Option<StatData>, AdbError>>::Need(
            (4 - buf@.len()) as usize,
        ),
        buf@.len() < 4 && eof ==> r matches Progress::Done(Ok(None)),
        buf@.len() >= 4 && !tag_at(buf@, 0, SyncTag::Stat) ==> r matches Progress::Done(Ok(None)),
        buf@.len() >= 4 && tag_at(buf@, 0, SyncTag::Stat) && buf@.len() < 16 ==> if eof {
            r matches Progress::Done(Err(AdbError::Protocol(_)))
        } else {
            r == Progress::<Result<Option<StatData>, AdbError>>::Need((16 - buf@.len()) as usize)
        },
        buf@.len() >= 16 && tag_at(buf@, 0, SyncTag::Stat) ==> (r matches Progress::Done(Ok(Some(s)))
            && s.spec_mode() == le32_at(buf@, 4) && s.spec_size() == le32_at(buf@, 8)
            && s.spec_mtime() == le32_at(buf@, 12)),
{
    if buf.len() < 4 {
        if eof {
            return Progress::Done(Ok(None));
        }
        return Progress::Need(4 - buf.len());
    }
    if !is_tag(buf, 0, SyncTag::Stat) {
        return Progress::Done(Ok(None));
    }
    if buf.len() < 16 {
        if eof {
            return Progress::Done(Err(AdbError::Protocol(String::from_str("stat reply cut short"))));
        }
        return Progress::Need(16 - buf.len());
    }
    let rec = &buf[4..16];
    proof {
        assert(rec@ =~= buf@.subrange(4, 16));
        assert(le32_at(rec@, 0) == le32_at(buf@, 4));
        assert(le32_at(rec@, 4) == le32_at(buf@, 8));
        assert(le32_at(rec@, 8) == le32_at(buf@, 12));
    }
    match StatData::from_bytes(rec) {
        Ok(s) => Progress::Done(Ok(Some(s))),
        Err(e) => Progress::Done(Err(e)),
    }
}

/// One record of a `LIST` reply.
#[derive(Debug, Clone)]
pub enum ListItem {
    Entry(RemoteDirEntry),
    End,
}

/// Length of the `DENT` record that starts the buffer, header included.
pub open spec fn dent_len(buf: Seq<u8>) -> int {
    20 + le32_at(buf, 16) as int
}

/// Decodes one record of a `LIST` reply: `DENT` with mode, size, mtime and
/// name; `DONE`; or `FAIL` with a message.
pub fn decode_list_record(buf: &[u8], eof: bool) -> (r: Progress<Result<ListItem, AdbError>>)
    ensures
        buf@.len() < 4 ==> if eof {
            r matches Progress::Done(Err(AdbError::Protocol(_)))
        } else {
            r == Progress::<Result<ListItem, AdbError>>::Need((4 - buf@.len()) as usize)
        },
        buf@.len() >= 4 && tag_at(buf@, 0, SyncTag::Done) ==> r matches Progress::Done(Ok(ListItem::End)),
        buf@.len() >= 20 && tag_at(buf@, 0, SyncTag::Dent) && buf@.len() >= dent_len(buf@) ==> (r matches Progress::Done(Ok(ListItem::Entry(e)))
            && e.mode == le32_at(buf@, 4) && e.size == le32_at(buf@, 8) && e.mtime == le32_at(buf@, 12)
            && e.name@ == lossy_of(buf@.subrange(20, dent_len(buf@)))
            && (valid_utf8(buf@.subrange(20, dent_len(buf@))) ==> e.name@ == decode_utf8(buf@.subrange(20, dent_len(buf@))))),
        buf@.len() >= 8 && tag_at(buf@, 0, SyncTag::Fail) && buf@.len() >= 8 + le32_at(buf@, 4) ==> (r matches Progress::Done(Err(AdbError::ServerReject(m)))
            && m@ == lossy_of(buf@.subrange(8, 8 + le32_at(buf@, 4) as int))
            && (valid_utf8(buf@.subrange(8, 8 + le32_at(buf@, 4) as int)) ==> m@ == decode_utf8(buf@.subrange(8, 8 + le32_at(buf@, 4) as int)))),
        buf@.len() >= 4 && !tag_at(buf@, 0, SyncTag::Done) && !tag_at(buf@, 0, SyncTag::Dent) && !tag_at(buf@, 0, SyncTag::Fail)
            ==> (r matches Progress::Done(Err(AdbError::Protocol(m)))
            && m@ == "adb: error: unexpected response during list: "@ + lossy_of(buf@.subrange(0, 4))),
        buf@.len() >= 4 && tag_at(buf@, 0, SyncTag::Dent) && (buf@.len() < 20 || buf@.len() < dent_len(buf@)) ==> if eof {
            r matches Progress::Done(Err(AdbError::Protocol(_)))
        } else {
            r == Progress::<Result<ListItem, AdbError>>::Need(
                (if buf@.len() < 20 { 20 - buf@.len() } else { dent_len(buf@) - buf@.len() }) as usize,
            )
        },
        buf@.len() >= 4 && tag_at(buf@, 0, SyncTag::Fail) && (buf@.len() < 8 || buf@.len() < 8 + le32_at(buf@, 4)) ==> if eof {
            r matches Progress::Done(Err(AdbError::Protocol(_)))
        } else {
            r == Progress::<Result<ListItem, AdbError>>::Need(
                (if buf@.len() < 8 { 8 - buf@.len() } else { 8 + le32_at(buf@, 4) - buf@.len() }) as usize,
            )
        },
        r matches Progress::Need(n) ==> n > 0 && !eof,
        !(r is NeedToEnd),
{
    if buf.len() < 4 {
        if eof {
            return Progress::Done(Err(AdbError::Protocol(String::from_str("directory listing cut short"))));
        }
        return Progress::Need(4 - buf.len());
    }
    if is_tag(buf, 0, SyncTag::Done) {
        return Progress::Done(Ok(ListItem::End));
    }
    if is_tag(buf, 0, SyncTag::Fail) {
        if buf.len() < 8 {
            if eof {
                return Progress::Done(Err(AdbError::Protocol(String::from_str("directory listing cut short"))));
            }
            return Progress::Need(8 - buf.len());
        }
        let n = read_le32(buf, 4) as usize;
        if buf.len() - 8 < n {
            if eof {
                return Progress::Done(Err(AdbError::Protocol(String::from_str("directory listing cut short"))));
            }
            return Progress::Need(n - (buf.len() - 8));
        }
        return Progress::Done(Err(AdbError::ServerReject(lossy_text(&buf[8..8 + n]))));
    }
    if is_tag(buf, 0, SyncTag::Dent) {
        if buf.len() < 20 {
            if eof {
                return Progress::Done(Err(AdbError::Protocol(String::from_str("directory listing cut short"))));
            }
            return Progress::Need(20 - buf.len());
        }
        let n = read_le32(buf, 16) as usize;
        if buf.len() - 20 < n {
            if eof {
                return Progress::Done(Err(AdbError::Protocol(String::from_str("directory listing cut short"))));
            }
            return Progress::Need(n - (buf.len() - 20));
        }
        let entry = RemoteDirEntry {
            name: lossy_text(&buf[20..20 + n]),
            mode: read_le32(buf, 4),
            size: read_le32(buf, 8),
            mtime: read_le32(buf, 12),
        };
        return Progress::Done(Ok(ListItem::Entry(entry)));
    }
    Progress::Done(Err(AdbError::Protocol(
        String::from_str("adb: error: unexpected response during list: ").concat(lossy_text(&buf[0..4]).as_str()),
    )))
}

/// The header of one frame of a `RECV` reply.
#[derive(Debug, Clone, Copy, PartialEq, Eq, Structural)]
pub enum RecvHeader {
    /// This many bytes of file contents follow.
    Data(u32),
    /// The file is complete.
    Done,
    /// A failure message of this many bytes follows.
    Fail(u32),
    /// Any other tag; it is passed over.
    Skip,
}

/// Decodes the eight-byte header of a `RECV` frame.
pub fn decode_recv_header(buf: &[u8], eof: bool) -> (r: Progress<Result<RecvHeader, AdbError>>)
    ensures
        buf@.len() < 8 ==> if eof {
            r matches Progress::Done(Err(AdbError::Protocol(_)))
        } else {
            r == Progress::<Result<RecvHeader, AdbError>>::Need((8 - buf@.len()) as usize)
        },
        buf@.len() >= 8 ==> r == Progress::<Result<RecvHeader, AdbError>>::Done(Ok(
            if tag_at(buf@, 0, SyncTag::Data) {
                RecvHeader::Data(le32_at(buf@, 4) as u32)
            } else if tag_at(buf@, 0, SyncTag::Done) {
                RecvHeader::Done
            } else if tag_at(buf@, 0, SyncTag::Fail) {
                RecvHeader::Fail(le32_at(buf@, 4) as u32)
            } else {
                RecvHeader::Skip
            },
        )),
{
    if buf.len() < 8 {
        if eof {
            return Progress::Done(Err(AdbError::Protocol(String::from_str("file transfer cut short"))));
        }
        return Progress::Need(8 - buf.len());
    }
    let size = read_le32(buf, 4);
    let h = if is_tag(buf, 0, SyncTag::Data) {
        RecvHeader::Data(size)
    } else if is_tag(buf, 0, SyncTag::Done) {
        RecvHeader::Done
    } else if is_tag(buf, 0, SyncTag::Fail) {
        RecvHeader::Fail(size)
    } else {
        RecvHeader::Skip
    };
    Progress::Done(Ok(h))
}

/// The failure of one pulled file, with the server's message.
pub open spec fn pull_failure_text(remote: Seq<char>, local: Seq<char>, message: Seq<char>) -> Seq<char> {
    "adb: error: failed to copy '"@ + remote + "' to '"@ + local + "': "@ + message
}

/// The failure of a directory listing, with the server's message.
pub open spec fn list_failure_text(remote: Seq<char>, message: Seq<char>) -> Seq<char> {
    "adb: error: failed to list directory '"@ + remote + "': "@ + message
}

/// Places a failed listing: the server's refusal (`ServerReject`) becomes
/// a `SyncOp` error that names the directory; any other error passes
/// through unchanged.
pub fn list_failure(remote: &str, e: AdbError) -> (r: AdbError)
    ensures
        match e {
            AdbError::ServerReject(m) => r matches AdbError::SyncOp(t) && t@ == list_failure_text(remote@, m@),
            _ => r == e,
        },
{
    match e {
        AdbError::ServerReject(m) => AdbError::SyncOp(
            String::from_str("adb: error: failed to list directory '").concat(remote).concat("': ").concat(
                m.as_str(),
            ),
        ),
        other => other,
    }
}

/// The error that a `FAIL` frame of a `RECV` reply stands for.
pub fn pull_failure(remote: &str, local: &str, message: &[u8]) -> (r: AdbError)
    ensures
        r matches AdbError::SyncOp(m) && m@ == pull_failure_text(remote@, local@, lossy_of(message@)),
        valid_utf8(message@) ==> (r matches AdbError::SyncOp(m) && m@ == pull_failure_text(
            remote@,
            local@,
            decode_utf8(message@),
        )),
{
    let text = String::from_str("adb: error: failed to copy '").concat(remote).concat("' to '").concat(
        local,
    ).concat("': ").concat(lossy_text(message).as_str());
    AdbError::SyncOp(text)
}

/// The reply that ends a `SEND`: anything but `FAIL` is success; `FAIL`
/// brings a length-prefixed message.
pub open spec fn push_status_reply(buf: Seq<u8>, eof: bool) -> Reply {
    if buf.len() < 4 {
        if eof { Reply::Unit } else { Reply::Need((4 - buf.len()) as nat) }
    } else if buf.subrange(0, 4) == fail_tag() {
        crate::host::message_at(buf, 4, eof)
    } else {
        Reply::Unit
    }
}

pub open spec fn push_status_view(p: Progress<Result<Option<String>, AdbError>>) -> Reply {
    match p {
        Progress::Need(n) => Reply::Need(n as nat),
        Progress::NeedToEnd => Reply::ToEnd,
        Progress::Done(Ok(None)) => Reply::Unit,
        Progress::Done(Ok(Some(m))) => Reply::Text(m@),
        Progress::Done(Err(AdbError::Protocol(_))) => Reply::Malformed,
        Progress::Done(Err(_)) => Reply::Other,
    }
}

/// Decodes the status that ends a `SEND`. `Ok(Some(message))` is the
/// server's refusal of the file.
pub fn decode_push_status(buf: &[u8], eof: bool) -> (r: Progress<Result<Option<String>, AdbError>>)
    ensures
        push_status_view(r) == push_status_reply(buf@, eof),
{
    if buf.len() < 4 {
        if eof {
            return Progress::Done(Ok(None));
        }
        return Progress::Need(4 - buf.len());
    }
    if is_tag(buf, 0, SyncTag::Fail) {
        let m = read_message(buf, 4, eof);
        assert(text_reply(m) == crate::host::message_at(buf@, 4, eof));
        match m {
            Progress::Need(n) => Progress::Need(n),
            Progress::NeedToEnd => Progress::NeedToEnd,
            Progress::Done(Ok(s)) => Progress::Done(Ok(Some(s))),
            Progress::Done(Err(e)) => Progress::Done(Err(e)),
        }
    } else {
        Progress::Done(Ok(None))
    }
}

} // verus!
