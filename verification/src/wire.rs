//! The binary form of a [`Message`].
//!
//! Integers are little-endian and of fixed width. A string is its length in
//! bytes as a `u64` followed by its UTF-8 bytes; a byte vector is its length
//! as a `u64` followed by the bytes. An enum is its variant index as a `u32`
//! followed by the fields of the variant in order. A message is its id, the
//! seconds and nanoseconds of its timestamp, and its payload.

use vstd::prelude::*;
use vstd::bytes::*;
use vstd::slice::*;
use vstd::string::*;
use vstd::utf8::*;
use crate::text::string_from_utf8;
use crate::protocol::{
    Command, CommandView, EncryptionMessage, EncryptionMessageView, FileInfo, FileInfoView,
    Message, MessageType, MessageTypeView, MessageView, StatusUpdate, StatusUpdateView, Timestamp,
    NANOS_PER_SEC,
};

verus! {

/// Why a byte sequence is not the encoding of a message.
#[derive(Debug, Clone, Copy, PartialEq, Eq, Structural)]
pub enum DecodeError {
    /// The input ends before the value does.
    UnexpectedEnd,
    /// A variant index names no variant.
    InvalidTag,
    /// The bytes of a string are not well-formed UTF-8.
    InvalidUtf8,
    /// The nanoseconds of the timestamp are not below one second.
    InvalidTimestamp,
    /// Bytes follow the end of the message.
    TrailingBytes,
}

/// Result of decoding a value from the front of a byte sequence: the value
/// and the bytes that follow it.
pub type Decoded<T> = Result<(T, Seq<u8>), DecodeError>;

/// Relates what an executable reader returned at offset `pos` of `data` to the
/// result `s` of the specification decoder on the bytes from `pos` on.
pub open spec fn reads_as<T: View>(
    data: Seq<u8>,
    pos: usize,
    r: Result<(T, usize), DecodeError>,
    s: Decoded<T::V>,
) -> bool {
    match r {
        Ok((value, next)) => {
            &&& s matches Ok((sv, rest))
            &&& value@ == sv
            &&& pos <= next <= data.len()
            &&& rest == data.skip(next as int)
        },
        Err(e) => s == Err::<(T::V, Seq<u8>), DecodeError>(e),
    }
}

// ---------------------------------------------------------------------
// Integers

/// Encoding of a `u64`: eight bytes, least significant first.
pub open spec fn enc_u64(x: u64) -> Seq<u8> {
    spec_u64_to_le_bytes(x)
}

/// Encoding of a `u32`: four bytes, least significant first.
pub open spec fn enc_u32(x: u32) -> Seq<u8> {
    spec_u32_to_le_bytes(x)
}

/// Decodes a `u64` from the front of `b`.
pub open spec fn dec_u64(b: Seq<u8>) -> Decoded<u64> {
    if b.len() < 8 {
        Err(DecodeError::UnexpectedEnd)
    } else {
        Ok((spec_u64_from_le_bytes(b.subrange(0, 8)), b.skip(8)))
    }
}

/// Decodes a `u32` from the front of `b`.
pub open spec fn dec_u32(b: Seq<u8>) -> Decoded<u32> {
    if b.len() < 4 {
        Err(DecodeError::UnexpectedEnd)
    } else {
        Ok((spec_u32_from_le_bytes(b.subrange(0, 4)), b.skip(4)))
    }
}

proof fn lemma_dec_enc_u64(x: u64, rest: Seq<u8>)
    ensures
        dec_u64(enc_u64(x) + rest) == Ok::<(u64, Seq<u8>), DecodeError>((x, rest)),
        enc_u64(x).len() == 8,
{
    lemma_auto_spec_u64_to_from_le_bytes();
    let b = enc_u64(x) + rest;
    assert(b.subrange(0, 8) =~= enc_u64(x));
    assert(b.skip(8) =~= rest);
}

proof fn lemma_enc_dec_u64(b: Seq<u8>)
    ensures
        dec_u64(b) matches Ok((x, rest)) ==> b == enc_u64(x) + rest,
{
    lemma_auto_spec_u64_to_from_le_bytes();
    if b.len() >= 8 {
        let head = b.subrange(0, 8);
        assert(spec_u64_to_le_bytes(spec_u64_from_le_bytes(head)) == head);
        assert(b =~= head + b.skip(8));
    }
}

proof fn lemma_dec_enc_u32(x: u32, rest: Seq<u8>)
    ensures
        dec_u32(enc_u32(x) + rest) == Ok::<(u32, Seq<u8>), DecodeError>((x, rest)),
        enc_u32(x).len() == 4,
{
    lemma_auto_spec_u32_to_from_le_bytes();
    let b = enc_u32(x) + rest;
    assert(b.subrange(0, 4) =~= enc_u32(x));
    assert(b.skip(4) =~= rest);
}

proof fn lemma_enc_dec_u32(b: Seq<u8>)
    ensures
        dec_u32(b) matches Ok((x, rest)) ==> b == enc_u32(x) + rest,
{
    lemma_auto_spec_u32_to_from_le_bytes();
    if b.len() >= 4 {
        let head = b.subrange(0, 4);
        assert(spec_u32_to_le_bytes(spec_u32_from_le_bytes(head)) == head);
        assert(b =~= head + b.skip(4));
    }
}

fn append_slice(out: &mut Vec<u8>, bytes: &[u8])
    ensures
        final(out)@ == old(out)@ + bytes@,
{
    out.extend_from_slice(bytes);
    assert(out@ =~= old(out)@ + bytes@);
}

fn write_u64(out: &mut Vec<u8>, x: u64)
    ensures
        final(out)@ == old(out)@ + enc_u64(x),
{
    let mut bytes = u64_to_le_bytes(x);
    out.append(&mut bytes);
}

fn write_u32(out: &mut Vec<u8>, x: u32)
    ensures
        final(out)@ == old(out)@ + enc_u32(x),
{
    let mut bytes = u32_to_le_bytes(x);
    out.append(&mut bytes);
}

fn read_u64(data: &[u8], pos: usize) -> (r: Result<(u64, usize), DecodeError>)
    requires
        pos <= data@.len(),
    ensures
        reads_as(data@, pos, r, dec_u64(data@.skip(pos as int))),
{
    if data.len() - pos < 8 {
        return Err(DecodeError::UnexpectedEnd);
    }
    let value = u64_from_le_bytes(slice_subrange(data, pos, pos + 8));
    proof {
        let b = data@.skip(pos as int);
        assert(b.subrange(0, 8) =~= data@.subrange(pos as int, pos + 8));
        assert(b.skip(8) =~= data@.skip(pos + 8));
    }
    Ok((value, pos + 8))
}

fn read_u32(data: &[u8], pos: usize) -> (r: Result<(u32, usize), DecodeError>)
    requires
        pos <= data@.len(),
    ensures
        reads_as(data@, pos, r, dec_u32(data@.skip(pos as int))),
{
    if data.len() - pos < 4 {
        return Err(DecodeError::UnexpectedEnd);
    }
    let value = u32_from_le_bytes(slice_subrange(data, pos, pos + 4));
    proof {
        let b = data@.skip(pos as int);
        assert(b.subrange(0, 4) =~= data@.subrange(pos as int, pos + 4));
        assert(b.skip(4) =~= data@.skip(pos + 4));
    }
    Ok((value, pos + 4))
}

// ---------------------------------------------------------------------
// Byte vectors and strings

/// Whether a byte vector is short enough for its length to be written.
pub open spec fn blob_fits(b: Seq<u8>) -> bool {
    b.len() <= u64::MAX
}

/// Whether a string is short enough for the length of its UTF-8 form to be
/// written.
pub open spec fn str_fits(s: Seq<char>) -> bool {
    blob_fits(encode_utf8(s))
}

/// Encoding of a byte vector: its length, then the bytes.
pub open spec fn enc_blob(b: Seq<u8>) -> Seq<u8> {
    enc_u64(b.len() as u64) + b
}

/// Encoding of a string: the encoding of its UTF-8 bytes.
pub open spec fn enc_str(s: Seq<char>) -> Seq<u8> {
    enc_blob(encode_utf8(s))
}

/// Decodes a byte vector from the front of `b`.
pub open spec fn dec_blob(b: Seq<u8>) -> Decoded<Seq<u8>> {
    match dec_u64(b) {
        Err(e) => Err(e),
        Ok((n, rest)) => if rest.len() < n {
            Err(DecodeError::UnexpectedEnd)
        } else {
            Ok((rest.subrange(0, n as int), rest.skip(n as int)))
        },
    }
}

/// Decodes a string from the front of `b`.
pub open spec fn dec_str(b: Seq<u8>) -> Decoded<Seq<char>> {
    match dec_blob(b) {
        Err(e) => Err(e),
        Ok((raw, rest)) => if valid_utf8(raw) {
            Ok((decode_utf8(raw), rest))
        } else {
            Err(DecodeError::InvalidUtf8)
        },
    }
}

proof fn lemma_dec_enc_blob(v: Seq<u8>, rest: Seq<u8>)
    requires
        blob_fits(v),
    ensures
        dec_blob(enc_blob(v) + rest) == Ok::<(Seq<u8>, Seq<u8>), DecodeError>((v, rest)),
{
    let tail = v + rest;
    assert(enc_blob(v) + rest =~= enc_u64(v.len() as u64) + tail);
    lemma_dec_enc_u64(v.len() as u64, tail);
    assert(tail.subrange(0, v.len() as int) =~= v);
    assert(tail.skip(v.len() as int) =~= rest);
}

proof fn lemma_enc_dec_blob(b: Seq<u8>)
    ensures
        dec_blob(b) matches Ok((v, rest)) ==> blob_fits(v) && b == enc_blob(v) + rest,
{
    lemma_enc_dec_u64(b);
    if let Ok((n, tail)) = dec_u64(b) {
        if tail.len() >= n {
            let v = tail.subrange(0, n as int);
            let rest = tail.skip(n as int);
            assert(tail =~= v + rest);
            assert(b =~= enc_blob(v) + rest);
        }
    }
}

proof fn lemma_dec_enc_str(v: Seq<char>, rest: Seq<u8>)
    requires
        str_fits(v),
    ensures
        dec_str(enc_str(v) + rest) == Ok::<(Seq<char>, Seq<u8>), DecodeError>((v, rest)),
{
    lemma_dec_enc_blob(encode_utf8(v), rest);
    encode_utf8_valid_utf8(v);
    encode_utf8_decode_utf8(v);
}

proof fn lemma_enc_dec_str(b: Seq<u8>)
    ensures
        dec_str(b) matches Ok((v, rest)) ==> str_fits(v) && b == enc_str(v) + rest,
{
    lemma_enc_dec_blob(b);
    if let Ok((raw, rest)) = dec_blob(b) {
        if valid_utf8(raw) {
            decode_utf8_encode_utf8(raw);
        }
    }
}

fn write_blob(out: &mut Vec<u8>, bytes: &[u8])
    ensures
        final(out)@ == old(out)@ + enc_blob(bytes@),
        blob_fits(bytes@),
{
    write_u64(out, bytes.len() as u64);
    append_slice(out, bytes);
    assert(out@ =~= old(out)@ + enc_blob(bytes@));
}

fn write_str(out: &mut Vec<u8>, s: &str)
    ensures
        final(out)@ == old(out)@ + enc_str(s@),
        str_fits(s@),
{
    write_blob(out, s.as_bytes());
}

fn read_blob(data: &[u8], pos: usize) -> (r: Result<(Vec<u8>, usize), DecodeError>)
    requires
        pos <= data@.len(),
    ensures
        reads_as(data@, pos, r, dec_blob(data@.skip(pos as int))),
{
    let (n, start) = match read_u64(data, pos) {
        Ok(pair) => pair,
        Err(e) => { return Err(e); },
    };
    if ((data.len() - start) as u64) < n {
        return Err(DecodeError::UnexpectedEnd);
    }
    let end = start + n as usize;
    let bytes = slice_to_vec(slice_subrange(data, start, end));
    proof {
        let tail = data@.skip(start as int);
        assert(tail.subrange(0, n as int) =~= data@.subrange(start as int, end as int));
        assert(tail.skip(n as int) =~= data@.skip(end as int));
    }
    Ok((bytes, end))
}

fn read_str(data: &[u8], pos: usize) -> (r: Result<(String, usize), DecodeError>)
    requires
        pos <= data@.len(),
    ensures
        reads_as(data@, pos, r, dec_str(data@.skip(pos as int))),
{
    let (bytes, next) = match read_blob(data, pos) {
        Ok(pair) => pair,
        Err(e) => { return Err(e); },
    };
    match string_from_utf8(bytes) {
        Some(s) => Ok((s, next)),
        None => Err(DecodeError::InvalidUtf8),
    }
}

// ---------------------------------------------------------------------
// File information

/// Whether every length in a file record can be written.
pub open spec fn file_info_fits(v: FileInfoView) -> bool {
    str_fits(v.name) && str_fits(v.hash) && blob_fits(v.data)
}

/// Encoding of a file record: name, size, hash, data.
pub open spec fn enc_file_info(v: FileInfoView) -> Seq<u8> {
    enc_str(v.name) + enc_u64(v.size) + enc_str(v.hash) + enc_blob(v.data)
}

/// Decodes a file record from the front of `b`.
pub open spec fn dec_file_info(b: Seq<u8>) -> Decoded<FileInfoView> {
    match dec_str(b) {
        Err(e) => Err(e),
        Ok((name, b1)) => match dec_u64(b1) {
            Err(e) => Err(e),
            Ok((size, b2)) => match dec_str(b2) {
                Err(e) => Err(e),
                Ok((hash, b3)) => match dec_blob(b3) {
                    Err(e) => Err(e),
                    Ok((data, b4)) => Ok((FileInfoView { name, size, hash, data }, b4)),
                },
            },
        },
    }
}

proof fn lemma_dec_enc_file_info(v: FileInfoView, rest: Seq<u8>)
    requires
        file_info_fits(v),
    ensures
        dec_file_info(enc_file_info(v) + rest) == Ok::<(FileInfoView, Seq<u8>), DecodeError>(
            (v, rest),
        ),
{
    let b3 = enc_blob(v.data) + rest;
    let b2 = enc_str(v.hash) + b3;
    let b1 = enc_u64(v.size) + b2;
    assert(enc_file_info(v) + rest =~= enc_str(v.name) + b1);
    lemma_dec_enc_str(v.name, b1);
    lemma_dec_enc_u64(v.size, b2);
    lemma_dec_enc_str(v.hash, b3);
    lemma_dec_enc_blob(v.data, rest);
}

#[verifier::rlimit(50)]
proof fn lemma_enc_dec_file_info(b: Seq<u8>)
    ensures
        dec_file_info(b) matches Ok((v, rest)) ==> file_info_fits(v) && b == enc_file_info(v)
            + rest,
{
    lemma_enc_dec_str(b);
    if let Ok((name, b1)) = dec_str(b) {
        lemma_enc_dec_u64(b1);
        if let Ok((size, b2)) = dec_u64(b1) {
            lemma_enc_dec_str(b2);
            if let Ok((hash, b3)) = dec_str(b2) {
                lemma_enc_dec_blob(b3);
                if let Ok((data, b4)) = dec_blob(b3) {
                    let v = FileInfoView { name, size, hash, data };
                    assert(b =~= enc_file_info(v) + b4);
                }
            }
        }
    }
}

fn write_file_info(out: &mut Vec<u8>, info: &FileInfo)
    ensures
        final(out)@ == old(out)@ + enc_file_info(info@),
        file_info_fits(info@),
{
    write_str(out, info.name.as_str());
    write_u64(out, info.size);
    write_str(out, info.hash.as_str());
    write_blob(out, info.data.as_slice());
    assert(out@ =~= old(out)@ + enc_file_info(info@));
}

fn read_file_info(data: &[u8], pos: usize) -> (r: Result<(FileInfo, usize), DecodeError>)
    requires
        pos <= data@.len(),
    ensures
        reads_as(data@, pos, r, dec_file_info(data@.skip(pos as int))),
{
    let (name, pos1) = match read_str(data, pos) {
        Ok(pair) => pair,
        Err(e) => { return Err(e); },
    };
    let (size, pos2) = match read_u64(data, pos1) {
        Ok(pair) => pair,
        Err(e) => { return Err(e); },
    };
    let (hash, pos3) = match read_str(data, pos2) {
        Ok(pair) => pair,
        Err(e) => { return Err(e); },
    };
    let (bytes, pos4) = match read_blob(data, pos3) {
        Ok(pair) => pair,
        Err(e) => { return Err(e); },
    };
    Ok((FileInfo { name, size, hash, data: bytes }, pos4))
}

// ---------------------------------------------------------------------
// Commands

/// Whether every length in a command can be written.
pub open spec fn command_fits(v: CommandView) -> bool {
    match v {
        CommandView::SendFile(path) => str_fits(path),
        CommandView::SetNickname(name) => str_fits(name),
        _ => true,
    }
}

/// Encoding of a command: the variant index, then the argument if any.
pub open spec fn enc_command(v: CommandView) -> Seq<u8> {
    match v {
        CommandView::Quit => enc_u32(0),
        CommandView::Help => enc_u32(1),
        CommandView::Info => enc_u32(2),
        CommandView::ListPeers => enc_u32(3),
        CommandView::SendFile(path) => enc_u32(4) + enc_str(path),
        CommandView::SetNickname(name) => enc_u32(5) + enc_str(name),
        CommandView::ToggleAutoOpen => enc_u32(6),
        CommandView::Stats => enc_u32(7),
    }
}

/// Decodes a command from the front of `b`.
pub open spec fn dec_command(b: Seq<u8>) -> Decoded<CommandView> {
    match dec_u32(b) {
        Err(e) => Err(e),
        Ok((tag, b1)) => if tag == 0 {
            Ok((CommandView::Quit, b1))
        } else if tag == 1 {
            Ok((CommandView::Help, b1))
        } else if tag == 2 {
            Ok((CommandView::Info, b1))
        } else if tag == 3 {
            Ok((CommandView::ListPeers, b1))
        } else if tag == 4 {
            match dec_str(b1) {
                Err(e) => Err(e),
                Ok((path, b2)) => Ok((CommandView::SendFile(path), b2)),
            }
        } else if tag == 5 {
            match dec_str(b1) {
                Err(e) => Err(e),
                Ok((name, b2)) => Ok((CommandView::SetNickname(name), b2)),
            }
        } else if tag == 6 {
            Ok((CommandView::ToggleAutoOpen, b1))
        } else if tag == 7 {
            Ok((CommandView::Stats, b1))
        } else {
            Err(DecodeError::InvalidTag)
        },
    }
}

#[verifier::rlimit(50)]
proof fn lemma_dec_enc_command(v: CommandView, rest: Seq<u8>)
    requires
        command_fits(v),
    ensures
        dec_command(enc_command(v) + rest) == Ok::<(CommandView, Seq<u8>), DecodeError>(
            (v, rest),
        ),
{
    match v {
        CommandView::Quit => lemma_dec_enc_u32(0, rest),
        CommandView::Help => lemma_dec_enc_u32(1, rest),
        CommandView::Info => lemma_dec_enc_u32(2, rest),
        CommandView::ListPeers => lemma_dec_enc_u32(3, rest),
        CommandView::SendFile(path) => {
            let b1 = enc_str(path) + rest;
            assert(enc_command(v) + rest =~= enc_u32(4) + b1);
            lemma_dec_enc_u32(4, b1);
            lemma_dec_enc_str(path, rest);
        },
        CommandView::SetNickname(name) => {
            let b1 = enc_str(name) + rest;
            assert(enc_command(v) + rest =~= enc_u32(5) + b1);
            lemma_dec_enc_u32(5, b1);
            lemma_dec_enc_str(name, rest);
        },
        CommandView::ToggleAutoOpen => lemma_dec_enc_u32(6, rest),
        CommandView::Stats => lemma_dec_enc_u32(7, rest),
    }
}

#[verifier::rlimit(50)]
proof fn lemma_enc_dec_command(b: Seq<u8>)
    ensures
        dec_command(b) matches Ok((v, rest)) ==> command_fits(v) && b == enc_command(v) + rest,
{
    lemma_enc_dec_u32(b);
    if let Ok((tag, b1)) = dec_u32(b) {
        if tag == 4 || tag == 5 {
            lemma_enc_dec_str(b1);
            if let Ok((text, b2)) = dec_str(b1) {
                assert(b =~= enc_u32(tag) + enc_str(text) + b2);
            }
        }
    }
}

fn write_command(out: &mut Vec<u8>, command: &Command)
    ensures
        final(out)@ == old(out)@ + enc_command(command@),
        command_fits(command@),
{
    match command {
        Command::Quit => write_u32(out, 0),
        Command::Help => write_u32(out, 1),
        Command::Info => write_u32(out, 2),
        Command::ListPeers => write_u32(out, 3),
        Command::SendFile(path) => {
            write_u32(out, 4);
            write_str(out, path.as_str());
        },
        Command::SetNickname(name) => {
            write_u32(out, 5);
            write_str(out, name.as_str());
        },
        Command::ToggleAutoOpen => write_u32(out, 6),
        Command::Stats => write_u32(out, 7),
    }
    assert(out@ =~= old(out)@ + enc_command(command@));
}

#[verifier::rlimit(50)]
fn read_command(data: &[u8], pos: usize) -> (r: Result<(Command, usize), DecodeError>)
    requires
        pos <= data@.len(),
    ensures
        reads_as(data@, pos, r, dec_command(data@.skip(pos as int))),
{
    let (tag, pos1) = match read_u32(data, pos) {
        Ok(pair) => pair,
        Err(e) => { return Err(e); },
    };
    if tag == 0 {
        Ok((Command::Quit, pos1))
    } else if tag == 1 {
        Ok((Command::Help, pos1))
    } else if tag == 2 {
        Ok((Command::Info, pos1))
    } else if tag == 3 {
        Ok((Command::ListPeers, pos1))
    } else if tag == 4 {
        match read_str(data, pos1) {
            Ok((path, pos2)) => Ok((Command::SendFile(path), pos2)),
            Err(e) => Err(e),
        }
    } else if tag == 5 {
        match read_str(data, pos1) {
            Ok((name, pos2)) => Ok((Command::SetNickname(name), pos2)),
            Err(e) => Err(e),
        }
    } else if tag == 6 {
        Ok((Command::ToggleAutoOpen, pos1))
    } else if tag == 7 {
        Ok((Command::Stats, pos1))
    } else {
        Err(DecodeError::InvalidTag)
    }
}

// ---------------------------------------------------------------------
// Status updates

/// Whether every length in a status update can be written.
pub open spec fn status_fits(v: StatusUpdateView) -> bool {
    match v {
        StatusUpdateView::PeerConnected(id) => str_fits(id),
        StatusUpdateView::PeerDisconnected(id) => str_fits(id),
        StatusUpdateView::TransferProgress(name, _, _) => str_fits(name),
        StatusUpdateView::Error(text) => str_fits(text),
        _ => true,
    }
}

/// Encoding of a status update: the variant index, then its fields.
pub open spec fn enc_status(v: StatusUpdateView) -> Seq<u8> {
    match v {
        StatusUpdateView::PeerConnected(id) => enc_u32(0) + enc_str(id),
        StatusUpdateView::PeerDisconnected(id) => enc_u32(1) + enc_str(id),
        StatusUpdateView::TransferProgress(name, done, total) => enc_u32(2) + enc_str(name)
            + enc_u64(done) + enc_u64(total),
        StatusUpdateView::Error(text) => enc_u32(3) + enc_str(text),
        StatusUpdateView::EncryptionEnabled => enc_u32(4),
        StatusUpdateView::EncryptionDisabled => enc_u32(5),
    }
}

/// Decodes the three fields of a transfer progress update.
pub open spec fn dec_progress(b: Seq<u8>) -> Decoded<StatusUpdateView> {
    match dec_str(b) {
        Err(e) => Err(e),
        Ok((name, b1)) => match dec_u64(b1) {
            Err(e) => Err(e),
            Ok((done, b2)) => match dec_u64(b2) {
                Err(e) => Err(e),
                Ok((total, b3)) => Ok((StatusUpdateView::TransferProgress(name, done, total), b3)),
            },
        },
    }
}

/// Decodes a status update from the front of `b`.
pub open spec fn dec_status(b: Seq<u8>) -> Decoded<StatusUpdateView> {
    match dec_u32(b) {
        Err(e) => Err(e),
        Ok((tag, b1)) => if tag == 0 {
            match dec_str(b1) {
                Err(e) => Err(e),
                Ok((id, b2)) => Ok((StatusUpdateView::PeerConnected(id), b2)),
            }
        } else if tag == 1 {
            match dec_str(b1) {
                Err(e) => Err(e),
                Ok((id, b2)) => Ok((StatusUpdateView::PeerDisconnected(id), b2)),
            }
        } else if tag == 2 {
            dec_progress(b1)
        } else if tag == 3 {
            match dec_str(b1) {
                Err(e) => Err(e),
                Ok((text, b2)) => Ok((StatusUpdateView::Error(text), b2)),
            }
        } else if tag == 4 {
            Ok((StatusUpdateView::EncryptionEnabled, b1))
        } else if tag == 5 {
            Ok((StatusUpdateView::EncryptionDisabled, b1))
        } else {
            Err(DecodeError::InvalidTag)
        },
    }
}

#[verifier::rlimit(50)]
proof fn lemma_dec_enc_status(v: StatusUpdateView, rest: Seq<u8>)
    requires
        status_fits(v),
    ensures
        dec_status(enc_status(v) + rest) == Ok::<(StatusUpdateView, Seq<u8>), DecodeError>(
            (v, rest),
        ),
{
    match v {
        StatusUpdateView::PeerConnected(id) => {
            let b1 = enc_str(id) + rest;
            assert(enc_status(v) + rest =~= enc_u32(0) + b1);
            lemma_dec_enc_u32(0, b1);
            lemma_dec_enc_str(id, rest);
        },
        StatusUpdateView::PeerDisconnected(id) => {
            let b1 = enc_str(id) + rest;
            assert(enc_status(v) + rest =~= enc_u32(1) + b1);
            lemma_dec_enc_u32(1, b1);
            lemma_dec_enc_str(id, rest);
        },
        StatusUpdateView::TransferProgress(name, done, total) => {
            let b3 = enc_u64(total) + rest;
            let b2 = enc_u64(done) + b3;
            let b1 = enc_str(name) + b2;
            assert(enc_status(v) + rest =~= enc_u32(2) + b1);
            lemma_dec_enc_u32(2, b1);
            lemma_dec_enc_str(name, b2);
            lemma_dec_enc_u64(done, b3);
            lemma_dec_enc_u64(total, rest);
        },
        StatusUpdateView::Error(text) => {
            let b1 = enc_str(text) + rest;
            assert(enc_status(v) + rest =~= enc_u32(3) + b1);
            lemma_dec_enc_u32(3, b1);
            lemma_dec_enc_str(text, rest);
        },
        StatusUpdateView::EncryptionEnabled => lemma_dec_enc_u32(4, rest),
        StatusUpdateView::EncryptionDisabled => lemma_dec_enc_u32(5, rest),
    }
}

#[verifier::rlimit(50)]
proof fn lemma_enc_dec_status(b: Seq<u8>)
    ensures
        dec_status(b) matches Ok((v, rest)) ==> status_fits(v) && b == enc_status(v) + rest,
{
    lemma_enc_dec_u32(b);
    if let Ok((tag, b1)) = dec_u32(b) {
        if tag == 0 || tag == 1 || tag == 3 {
            lemma_enc_dec_str(b1);
            if let Ok((text, b2)) = dec_str(b1) {
                assert(b =~= enc_u32(tag) + enc_str(text) + b2);
            }
        } else if tag == 2 {
            lemma_enc_dec_str(b1);
            if let Ok((name, b2)) = dec_str(b1) {
                lemma_enc_dec_u64(b2);
                if let Ok((done, b3)) = dec_u64(b2) {
                    lemma_enc_dec_u64(b3);
                    if let Ok((total, b4)) = dec_u64(b3) {
                        assert(b =~= enc_u32(2) + enc_str(name) + enc_u64(done) + enc_u64(total)
                            + b4);
                    }
                }
            }
        }
    }
}

fn write_status(out: &mut Vec<u8>, status: &StatusUpdate)
    ensures
        final(out)@ == old(out)@ + enc_status(status@),
        status_fits(status@),
{
    match status {
        StatusUpdate::PeerConnected(id) => {
            write_u32(out, 0);
            write_str(out, id.as_str());
        },
        StatusUpdate::PeerDisconnected(id) => {
            write_u32(out, 1);
            write_str(out, id.as_str());
        },
        StatusUpdate::TransferProgress(name, done, total) => {
            write_u32(out, 2);
            write_str(out, name.as_str());
            write_u64(out, *done);
            write_u64(out, *total);
        },
        StatusUpdate::Error(text) => {
            write_u32(out, 3);
            write_str(out, text.as_str());
        },
        StatusUpdate::EncryptionEnabled => write_u32(out, 4),
        StatusUpdate::EncryptionDisabled => write_u32(out, 5),
    }
    assert(out@ =~= old(out)@ + enc_status(status@));
}

fn read_progress(data: &[u8], pos: usize) -> (r: Result<(StatusUpdate, usize), DecodeError>)
    requires
        pos <= data@.len(),
    ensures
        reads_as(data@, pos, r, dec_progress(data@.skip(pos as int))),
{
    let (name, pos1) = match read_str(data, pos) {
        Ok(pair) => pair,
        Err(e) => { return Err(e); },
    };
    let (done, pos2) = match read_u64(data, pos1) {
        Ok(pair) => pair,
        Err(e) => { return Err(e); },
    };
    let (total, pos3) = match read_u64(data, pos2) {
        Ok(pair) => pair,
        Err(e) => { return Err(e); },
    };
    Ok((StatusUpdate::TransferProgress(name, done, total), pos3))
}

#[verifier::rlimit(50)]
fn read_status(data: &[u8], pos: usize) -> (r: Result<(StatusUpdate, usize), DecodeError>)
    requires
        pos <= data@.len(),
    ensures
        reads_as(data@, pos, r, dec_status(data@.skip(pos as int))),
{
    let (tag, pos1) = match read_u32(data, pos) {
        Ok(pair) => pair,
        Err(e) => { return Err(e); },
    };
    if tag == 0 {
        match read_str(data, pos1) {
            Ok((id, pos2)) => Ok((StatusUpdate::PeerConnected(id), pos2)),
            Err(e) => Err(e),
        }
    } else if tag == 1 {
        match read_str(data, pos1) {
            Ok((id, pos2)) => Ok((StatusUpdate::PeerDisconnected(id), pos2)),
            Err(e) => Err(e),
        }
    } else if tag == 2 {
        read_progress(data, pos1)
    } else if tag == 3 {
        match read_str(data, pos1) {
            Ok((text, pos2)) => Ok((StatusUpdate::Error(text), pos2)),
            Err(e) => Err(e),
        }
    } else if tag == 4 {
        Ok((StatusUpdate::EncryptionEnabled, pos1))
    } else if tag == 5 {
        Ok((StatusUpdate::EncryptionDisabled, pos1))
    } else {
        Err(DecodeError::InvalidTag)
    }
}

// ---------------------------------------------------------------------
// Handshake messages

/// Whether every length in a handshake message can be written.
pub open spec fn handshake_fits(v: EncryptionMessageView) -> bool {
    match v {
        EncryptionMessageView::PublicKeyExchange(key) => str_fits(key),
        EncryptionMessageView::SharedKeyExchange(key) => str_fits(key),
        EncryptionMessageView::HandshakeComplete => true,
    }
}

/// Encoding of a handshake message: the variant index, then the key if any.
pub open spec fn enc_handshake(v: EncryptionMessageView) -> Seq<u8> {
    match v {
        EncryptionMessageView::PublicKeyExchange(key) => enc_u32(0) + enc_str(key),
        EncryptionMessageView::SharedKeyExchange(key) => enc_u32(1) + enc_str(key),
        EncryptionMessageView::HandshakeComplete => enc_u32(2),
    }
}

/// Decodes a handshake message from the front of `b`.
pub open spec fn dec_handshake(b: Seq<u8>) -> Decoded<EncryptionMessageView> {
    match dec_u32(b) {
        Err(e) => Err(e),
        Ok((tag, b1)) => if tag == 0 {
            match dec_str(b1) {
                Err(e) => Err(e),
                Ok((key, b2)) => Ok((EncryptionMessageView::PublicKeyExchange(key), b2)),
            }
        } else if tag == 1 {
            match dec_str(b1) {
                Err(e) => Err(e),
                Ok((key, b2)) => Ok((EncryptionMessageView::SharedKeyExchange(key), b2)),
            }
        } else if tag == 2 {
            Ok((EncryptionMessageView::HandshakeComplete, b1))
        } else {
            Err(DecodeError::InvalidTag)
        },
    }
}

proof fn lemma_dec_enc_handshake(v: EncryptionMessageView, rest: Seq<u8>)
    requires
        handshake_fits(v),
    ensures
        dec_handshake(enc_handshake(v) + rest) == Ok::<
            (EncryptionMessageView, Seq<u8>),
            DecodeError,
        >((v, rest)),
{
    match v {
        EncryptionMessageView::PublicKeyExchange(key) => {
            let b1 = enc_str(key) + rest;
            assert(enc_handshake(v) + rest =~= enc_u32(0) + b1);
            lemma_dec_enc_u32(0, b1);
            lemma_dec_enc_str(key, rest);
        },
        EncryptionMessageView::SharedKeyExchange(key) => {
            let b1 = enc_str(key) + rest;
            assert(enc_handshake(v) + rest =~= enc_u32(1) + b1);
            lemma_dec_enc_u32(1, b1);
            lemma_dec_enc_str(key, rest);
        },
        EncryptionMessageView::HandshakeComplete => lemma_dec_enc_u32(2, rest),
    }
}

proof fn lemma_enc_dec_handshake(b: Seq<u8>)
    ensures
        dec_handshake(b) matches Ok((v, rest)) ==> handshake_fits(v) && b == enc_handshake(v)
            + rest,
{
    lemma_enc_dec_u32(b);
    if let Ok((tag, b1)) = dec_u32(b) {
        if tag == 0 || tag == 1 {
            lemma_enc_dec_str(b1);
            if let Ok((key, b2)) = dec_str(b1) {
                assert(b =~= enc_u32(tag) + enc_str(key) + b2);
            }
        }
    }
}

fn write_handshake(out: &mut Vec<u8>, msg: &EncryptionMessage)
    ensures
        final(out)@ == old(out)@ + enc_handshake(msg@),
        handshake_fits(msg@),
{
    match msg {
        EncryptionMessage::PublicKeyExchange(key) => {
            write_u32(out, 0);
            write_str(out, key.as_str());
        },
        EncryptionMessage::SharedKeyExchange(key) => {
            write_u32(out, 1);
            write_str(out, key.as_str());
        },
        EncryptionMessage::HandshakeComplete => write_u32(out, 2),
    }
    assert(out@ =~= old(out)@ + enc_handshake(msg@));
}

fn read_handshake(data: &[u8], pos: usize) -> (r: Result<(EncryptionMessage, usize), DecodeError>)
    requires
        pos <= data@.len(),
    ensures
        reads_as(data@, pos, r, dec_handshake(data@.skip(pos as int))),
{
    let (tag, pos1) = match read_u32(data, pos) {
        Ok(pair) => pair,
        Err(e) => { return Err(e); },
    };
    if tag == 0 {
        match read_str(data, pos1) {
            Ok((key, pos2)) => Ok((EncryptionMessage::PublicKeyExchange(key), pos2)),
            Err(e) => Err(e),
        }
    } else if tag == 1 {
        match read_str(data, pos1) {
            Ok((key, pos2)) => Ok((EncryptionMessage::SharedKeyExchange(key), pos2)),
            Err(e) => Err(e),
        }
    } else if tag == 2 {
        Ok((EncryptionMessage::HandshakeComplete, pos1))
    } else {
        Err(DecodeError::InvalidTag)
    }
}

// ---------------------------------------------------------------------
// Payloads

/// Whether every length in a payload can be written.
pub open spec fn payload_fits(v: MessageTypeView) -> bool {
    match v {
        MessageTypeView::Text(text) => str_fits(text),
        MessageTypeView::EncryptedText(text) => str_fits(text),
        MessageTypeView::File(info) => file_info_fits(info),
        MessageTypeView::Command(command) => command_fits(command),
        MessageTypeView::Status(status) => status_fits(status),
        MessageTypeView::Heartbeat => true,
        MessageTypeView::Acknowledgment(_) => true,
        MessageTypeView::Encryption(inner) => handshake_fits(inner),
    }
}

/// Encoding of a payload: the variant index, then the content.
pub open spec fn enc_payload(v: MessageTypeView) -> Seq<u8> {
    match v {
        MessageTypeView::Text(text) => enc_u32(0) + enc_str(text),
        MessageTypeView::EncryptedText(text) => enc_u32(1) + enc_str(text),
        MessageTypeView::File(info) => enc_u32(2) + enc_file_info(info),
        MessageTypeView::Command(command) => enc_u32(3) + enc_command(command),
        MessageTypeView::Status(status) => enc_u32(4) + enc_status(status),
        MessageTypeView::Heartbeat => enc_u32(5),
        MessageTypeView::Acknowledgment(id) => enc_u32(6) + enc_u64(id),
        MessageTypeView::Encryption(inner) => enc_u32(7) + enc_handshake(inner),
    }
}

/// Decodes a payload from the front of `b`.
pub open spec fn dec_payload(b: Seq<u8>) -> Decoded<MessageTypeView> {
    match dec_u32(b) {
        Err(e) => Err(e),
        Ok((tag, b1)) => if tag == 0 {
            match dec_str(b1) {
                Err(e) => Err(e),
                Ok((text, b2)) => Ok((MessageTypeView::Text(text), b2)),
            }
        } else if tag == 1 {
            match dec_str(b1) {
                Err(e) => Err(e),
                Ok((text, b2)) => Ok((MessageTypeView::EncryptedText(text), b2)),
            }
        } else if tag == 2 {
            match dec_file_info(b1) {
                Err(e) => Err(e),
                Ok((info, b2)) => Ok((MessageTypeView::File(info), b2)),
            }
        } else if tag == 3 {
            match dec_command(b1) {
                Err(e) => Err(e),
                Ok((command, b2)) => Ok((MessageTypeView::Command(command), b2)),
            }
        } else if tag == 4 {
            match dec_status(b1) {
                Err(e) => Err(e),
                Ok((status, b2)) => Ok((MessageTypeView::Status(status), b2)),
            }
        } else if tag == 5 {
            Ok((MessageTypeView::Heartbeat, b1))
        } else if tag == 6 {
            match dec_u64(b1) {
                Err(e) => Err(e),
                Ok((id, b2)) => Ok((MessageTypeView::Acknowledgment(id), b2)),
            }
        } else if tag == 7 {
            match dec_handshake(b1) {
                Err(e) => Err(e),
                Ok((inner, b2)) => Ok((MessageTypeView::Encryption(inner), b2)),
            }
        } else {
            Err(DecodeError::InvalidTag)
        },
    }
}

#[verifier::rlimit(50)]
proof fn lemma_dec_enc_payload(v: MessageTypeView, rest: Seq<u8>)
    requires
        payload_fits(v),
    ensures
        dec_payload(enc_payload(v) + rest) == Ok::<(MessageTypeView, Seq<u8>), DecodeError>(
            (v, rest),
        ),
{
    match v {
        MessageTypeView::Text(text) => {
            let b1 = enc_str(text) + rest;
            assert(enc_payload(v) + rest =~= enc_u32(0) + b1);
            lemma_dec_enc_u32(0, b1);
            lemma_dec_enc_str(text, rest);
        },
        MessageTypeView::EncryptedText(text) => {
            let b1 = enc_str(text) + rest;
            assert(enc_payload(v) + rest =~= enc_u32(1) + b1);
            lemma_dec_enc_u32(1, b1);
            lemma_dec_enc_str(text, rest);
        },
        MessageTypeView::File(info) => {
            let b1 = enc_file_info(info) + rest;
            assert(enc_payload(v) + rest =~= enc_u32(2) + b1);
            lemma_dec_enc_u32(2, b1);
            lemma_dec_enc_file_info(info, rest);
        },
        MessageTypeView::Command(command) => {
            let b1 = enc_command(command) + rest;
            assert(enc_payload(v) + rest =~= enc_u32(3) + b1);
            lemma_dec_enc_u32(3, b1);
            lemma_dec_enc_command(command, rest);
        },
        MessageTypeView::Status(status) => {
            let b1 = enc_status(status) + rest;
            assert(enc_payload(v) + rest =~= enc_u32(4) + b1);
            lemma_dec_enc_u32(4, b1);
            lemma_dec_enc_status(status, rest);
        },
        MessageTypeView::Heartbeat => lemma_dec_enc_u32(5, rest),
        MessageTypeView::Acknowledgment(id) => {
            let b1 = enc_u64(id) + rest;
            assert(enc_payload(v) + rest =~= enc_u32(6) + b1);
            lemma_dec_enc_u32(6, b1);
            lemma_dec_enc_u64(id, rest);
        },
        MessageTypeView::Encryption(inner) => {
            let b1 = enc_handshake(inner) + rest;
            assert(enc_payload(v) + rest =~= enc_u32(7) + b1);
            lemma_dec_enc_u32(7, b1);
            lemma_dec_enc_handshake(inner, rest);
        },
    }
}

proof fn lemma_tagged(b: Seq<u8>, body: Seq<u8>, rest: Seq<u8>)
    requires
        dec_u32(b) is Ok,
        dec_u32(b)->Ok_0.1 == body + rest,
    ensures
        b == enc_u32(dec_u32(b)->Ok_0.0) + body + rest,
{
    lemma_enc_dec_u32(b);
    let tag = dec_u32(b)->Ok_0.0;
    assert(b =~= enc_u32(tag) + body + rest);
}

#[verifier::rlimit(40)]
proof fn lemma_enc_dec_payload(b: Seq<u8>)
    ensures
        dec_payload(b) matches Ok((v, rest)) ==> payload_fits(v) && b == enc_payload(v) + rest,
{
    if let Ok((tag, b1)) = dec_u32(b) {
        if tag == 0 || tag == 1 {
            lemma_enc_dec_str(b1);
            if let Ok((text, b2)) = dec_str(b1) {
                lemma_tagged(b, enc_str(text), b2);
            }
        } else if tag == 2 {
            lemma_enc_dec_file_info(b1);
            if let Ok((info, b2)) = dec_file_info(b1) {
                lemma_tagged(b, enc_file_info(info), b2);
            }
        } else if tag == 3 {
            lemma_enc_dec_command(b1);
            if let Ok((command, b2)) = dec_command(b1) {
                lemma_tagged(b, enc_command(command), b2);
            }
        } else if tag == 4 {
            lemma_enc_dec_status(b1);
            if let Ok((status, b2)) = dec_status(b1) {
                lemma_tagged(b, enc_status(status), b2);
            }
        } else if tag == 5 {
            lemma_tagged(b, Seq::empty(), b1);
            assert(enc_u32(5) + Seq::<u8>::empty() =~= enc_u32(5));
        } else if tag == 6 {
            lemma_enc_dec_u64(b1);
            if let Ok((id, b2)) = dec_u64(b1) {
                lemma_tagged(b, enc_u64(id), b2);
            }
        } else if tag == 7 {
            lemma_enc_dec_handshake(b1);
            if let Ok((inner, b2)) = dec_handshake(b1) {
                lemma_tagged(b, enc_handshake(inner), b2);
            }
        }
    }
}

#[verifier::rlimit(50)]
fn write_payload(out: &mut Vec<u8>, payload: &MessageType)
    ensures
        final(out)@ == old(out)@ + enc_payload(payload@),
        payload_fits(payload@),
{
    match payload {
        MessageType::Text(text) => {
            write_u32(out, 0);
            write_str(out, text.as_str());
        },
        MessageType::EncryptedText(text) => {
            write_u32(out, 1);
            write_str(out, text.as_str());
        },
        MessageType::File(info) => {
            write_u32(out, 2);
            write_file_info(out, info);
        },
        MessageType::Command(command) => {
            write_u32(out, 3);
            write_command(out, command);
        },
        MessageType::Status(status) => {
            write_u32(out, 4);
            write_status(out, status);
        },
        MessageType::Heartbeat => write_u32(out, 5),
        MessageType::Acknowledgment(id) => {
            write_u32(out, 6);
            write_u64(out, *id);
        },
        MessageType::Encryption(inner) => {
            write_u32(out, 7);
            write_handshake(out, inner);
        },
    }
    assert(out@ =~= old(out)@ + enc_payload(payload@));
}

#[verifier::rlimit(50)]
fn read_payload(data: &[u8], pos: usize) -> (r: Result<(MessageType, usize), DecodeError>)
    requires
        pos <= data@.len(),
    ensures
        reads_as(data@, pos, r, dec_payload(data@.skip(pos as int))),
{
    let (tag, pos1) = match read_u32(data, pos) {
        Ok(pair) => pair,
        Err(e) => { return Err(e); },
    };
    if tag == 0 {
        match read_str(data, pos1) {
            Ok((text, pos2)) => Ok((MessageType::Text(text), pos2)),
            Err(e) => Err(e),
        }
    } else if tag == 1 {
        match read_str(data, pos1) {
            Ok((text, pos2)) => Ok((MessageType::EncryptedText(text), pos2)),
            Err(e) => Err(e),
        }
    } else if tag == 2 {
        match read_file_info(data, pos1) {
            Ok((info, pos2)) => Ok((MessageType::File(info), pos2)),
            Err(e) => Err(e),
        }
    } else if tag == 3 {
        match read_command(data, pos1) {
            Ok((command, pos2)) => Ok((MessageType::Command(command), pos2)),
            Err(e) => Err(e),
        }
    } else if tag == 4 {
        match read_status(data, pos1) {
            Ok((status, pos2)) => Ok((MessageType::Status(status), pos2)),
            Err(e) => Err(e),
        }
    } else if tag == 5 {
        Ok((MessageType::Heartbeat, pos1))
    } else if tag == 6 {
        match read_u64(data, pos1) {
            Ok((id, pos2)) => Ok((MessageType::Acknowledgment(id), pos2)),
            Err(e) => Err(e),
        }
    } else if tag == 7 {
        match read_handshake(data, pos1) {
            Ok((inner, pos2)) => Ok((MessageType::Encryption(inner), pos2)),
            Err(e) => Err(e),
        }
    } else {
        Err(DecodeError::InvalidTag)
    }
}

// ---------------------------------------------------------------------
// Messages

/// Whether a message can be encoded: its timestamp is valid and every length
/// in it can be written.
pub open spec fn encodable(m: MessageView) -> bool {
    m.timestamp.is_valid() && payload_fits(m.msg_type)
}

/// The encoding of a message: id, seconds, nanoseconds, payload.
pub open spec fn encode(m: MessageView) -> Seq<u8> {
    enc_u64(m.id) + enc_u64(m.timestamp.secs) + enc_u32(m.timestamp.nanos) + enc_payload(
        m.msg_type,
    )
}

/// Decodes a message from the front of `b`.
pub open spec fn dec_message(b: Seq<u8>) -> Decoded<MessageView> {
    match dec_u64(b) {
        Err(e) => Err(e),
        Ok((id, b1)) => match dec_u64(b1) {
            Err(e) => Err(e),
            Ok((secs, b2)) => match dec_u32(b2) {
                Err(e) => Err(e),
                Ok((nanos, b3)) => if nanos >= NANOS_PER_SEC {
                    Err(DecodeError::InvalidTimestamp)
                } else {
                    match dec_payload(b3) {
                        Err(e) => Err(e),
                        Ok((msg_type, b4)) => Ok(
                            (MessageView { id, timestamp: Timestamp { secs, nanos }, msg_type }, b4),
                        ),
                    }
                },
            },
        },
    }
}

/// Decodes a byte sequence that holds exactly one message.
pub open spec fn decode(b: Seq<u8>) -> Result<MessageView, DecodeError> {
    match dec_message(b) {
        Err(e) => Err(e),
        Ok((m, rest)) => if rest.len() == 0 {
            Ok(m)
        } else {
            Err(DecodeError::TrailingBytes)
        },
    }
}

proof fn lemma_dec_enc_message(m: MessageView, rest: Seq<u8>)
    requires
        encodable(m),
    ensures
        dec_message(encode(m) + rest) == Ok::<(MessageView, Seq<u8>), DecodeError>((m, rest)),
{
    let b3 = enc_payload(m.msg_type) + rest;
    let b2 = enc_u32(m.timestamp.nanos) + b3;
    let b1 = enc_u64(m.timestamp.secs) + b2;
    assert(encode(m) + rest =~= enc_u64(m.id) + b1);
    lemma_dec_enc_u64(m.id, b1);
    lemma_dec_enc_u64(m.timestamp.secs, b2);
    lemma_dec_enc_u32(m.timestamp.nanos, b3);
    lemma_dec_enc_payload(m.msg_type, rest);
}

#[verifier::rlimit(50)]
proof fn lemma_enc_dec_message(b: Seq<u8>)
    ensures
        dec_message(b) matches Ok((m, rest)) ==> encodable(m) && b == encode(m) + rest,
{
    lemma_enc_dec_u64(b);
    if let Ok((id, b1)) = dec_u64(b) {
        lemma_enc_dec_u64(b1);
        if let Ok((secs, b2)) = dec_u64(b1) {
            lemma_enc_dec_u32(b2);
            if let Ok((nanos, b3)) = dec_u32(b2) {
                if nanos < NANOS_PER_SEC {
                    lemma_enc_dec_payload(b3);
                    if let Ok((msg_type, b4)) = dec_payload(b3) {
                        let m = MessageView { id, timestamp: Timestamp { secs, nanos }, msg_type };
                        assert(b =~= encode(m) + b4);
                    }
                }
            }
        }
    }
}

/// Decoding the encoding of a message gives the message back: identifier,
/// timestamp and payload are preserved exactly.
pub proof fn lemma_decode_encode(m: MessageView)
    requires
        encodable(m),
    ensures
        decode(encode(m)) == Ok::<MessageView, DecodeError>(m),
{
    lemma_dec_enc_message(m, Seq::empty());
    assert(encode(m) + Seq::<u8>::empty() =~= encode(m));
}

/// Only encodings decode: a byte sequence decodes to a message exactly when
/// it is the encoding of that message, and every other sequence is an error.
pub proof fn lemma_decode_exact(b: Seq<u8>, m: MessageView)
    ensures
        decode(b) == Ok::<MessageView, DecodeError>(m) <==> encodable(m) && b == encode(m),
{
    lemma_enc_dec_message(b);
    if encodable(m) && b == encode(m) {
        lemma_decode_encode(m);
    }
    if let Ok((got, rest)) = dec_message(b) {
        if rest.len() == 0 {
            assert(encode(got) + rest =~= encode(got));
        }
    }
}

/// Two messages with the same encoding are the same message.
pub proof fn lemma_encode_injective(m1: MessageView, m2: MessageView)
    requires
        encodable(m1),
        encodable(m2),
        encode(m1) == encode(m2),
    ensures
        m1 == m2,
{
    lemma_decode_encode(m1);
    lemma_decode_encode(m2);
}

/// Why a message cannot be encoded.
#[derive(Debug, Clone, Copy, PartialEq, Eq, Structural)]
pub enum EncodeError {
    /// The nanoseconds of the timestamp are not below one second.
    InvalidTimestamp,
}

impl Message {
    /// Encodes the message. Fails exactly when the timestamp is invalid; the
    /// bytes returned decode to this message.
    #[verifier::rlimit(50)]
    pub fn serialize(&self) -> (r: Result<Vec<u8>, EncodeError>)
        ensures
            match r {
                Ok(bytes) => {
                    &&& self.timestamp.is_valid()
                    &&& bytes@ == encode(self@)
                    &&& decode(bytes@) == Ok::<MessageView, DecodeError>(self@)
                },
                Err(e) => !self.timestamp.is_valid() && e == EncodeError::InvalidTimestamp,
            },
    {
        if !self.timestamp.check_valid() {
            return Err(EncodeError::InvalidTimestamp);
        }
        let mut out: Vec<u8> = Vec::new();
        write_u64(&mut out, self.id);
        write_u64(&mut out, self.timestamp.secs);
        write_u32(&mut out, self.timestamp.nanos);
        write_payload(&mut out, &self.msg_type);
        proof {
            assert(out@ =~= encode(self@));
            lemma_decode_encode(self@);
        }
        Ok(out)
    }

    /// Decodes a message from the front of `data` and returns it with the
    /// number of bytes it took.
    pub fn deserialize_prefix(data: &[u8]) -> (r: Result<(Message, usize), DecodeError>)
        ensures
            reads_as(data@, 0, r, dec_message(data@)),
    {
        assert(data@.skip(0) =~= data@);
        let (id, pos1) = match read_u64(data, 0) {
            Ok(pair) => pair,
            Err(e) => { return Err(e); },
        };
        let (secs, pos2) = match read_u64(data, pos1) {
            Ok(pair) => pair,
            Err(e) => { return Err(e); },
        };
        let (nanos, pos3) = match read_u32(data, pos2) {
            Ok(pair) => pair,
            Err(e) => { return Err(e); },
        };
        if nanos >= NANOS_PER_SEC {
            return Err(DecodeError::InvalidTimestamp);
        }
        let (msg_type, pos4) = match read_payload(data, pos3) {
            Ok(pair) => pair,
            Err(e) => { return Err(e); },
        };
        Ok((Message { id, timestamp: Timestamp { secs, nanos }, msg_type }, pos4))
    }

    /// Decodes a byte sequence that holds exactly one message. Succeeds
    /// exactly on the encodings of messages and never panics.
    #[verifier::rlimit(50)]
    pub fn deserialize(data: &[u8]) -> (r: Result<Message, DecodeError>)
        ensures
            match r {
                Ok(m) => decode(data@) == Ok::<MessageView, DecodeError>(m@) && encodable(m@)
                    && data@ == encode(m@),
                Err(e) => decode(data@) == Err::<MessageView, DecodeError>(e),
            },
    {
        match Message::deserialize_prefix(data) {
            Err(e) => Err(e),
            Ok((m, used)) => {
                if used == data.len() {
                    proof {
                        lemma_decode_exact(data@, m@);
                    }
                    Ok(m)
                } else {
                    Err(DecodeError::TrailingBytes)
                }
            },
        }
    }
}

} // verus!
