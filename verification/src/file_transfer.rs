//! File transfer: what is sent along with a file so that the receiver can
//! check it, and the check itself.
//!
//! A file travels as a [`FileInfo`]: its name, its size, the SHA-256 digest
//! of its contents and the contents. A receiver accepts it only if the size
//! and the digest match the contents and the size is within the limit.

use vstd::prelude::*;
use vstd::string::*;
use crate::config::texts_of;
use crate::crypto::{sha256_hex, sha256_hex_digest, SHA256_HEX_LEN};
use crate::error::{ChatError, ChatErrorView};
use crate::protocol::{
    FileInfo, FileInfoView, Message, MessageType, MessageTypeView, StatusUpdate, StatusUpdateView,
};
use crate::text::{chars_of, decimal, push_decimal, same_text, string_of};

verus! {

/// Number of bytes in a megabyte.
pub const BYTES_PER_MB: u64 = 1_048_576;

/// The lower-case form of a text, as `str::to_lowercase` gives it.
pub uninterp spec fn lowercase_of(text: Seq<char>) -> Seq<char>;

/// Calls `str::to_lowercase`: the named lower-case form of the text.
#[verifier::external_body]
fn to_lowercase(text: &str) -> (lower: String)
    ensures
        lower@ == lowercase_of(text@),
{
    text.to_lowercase()
}

/// Index of the last occurrence of `c` in `s`, or -1 if there is none.
pub open spec fn last_index_of(s: Seq<char>, c: char) -> int
    decreases s.len(),
{
    if s.len() == 0 {
        -1
    } else if s.last() == c {
        s.len() - 1
    } else {
        last_index_of(s.drop_last(), c)
    }
}

/// Whether a path ends in a separator or in a `.` segment behind one;
/// neither is part of its last component.
pub open spec fn has_trailing_part(path: Seq<char>) -> bool {
    ||| path.len() > 0 && path.last() == '/'
    ||| path.len() >= 2 && path.last() == '.' && path[path.len() - 2] == '/'
}

/// A path without the separators and `.` segments at its end.
pub open spec fn without_trailing_parts(path: Seq<char>) -> Seq<char>
    decreases path.len(),
{
    if has_trailing_part(path) {
        without_trailing_parts(path.drop_last())
    } else {
        path
    }
}

/// The last component of a `/`-separated path: its last segment once the
/// separators and `.` segments at its end are passed over.
pub open spec fn file_name_of(path: Seq<char>) -> Seq<char> {
    let trimmed = without_trailing_parts(path);
    trimmed.skip(last_index_of(trimmed, '/') + 1)
}

/// The extension of a file name: what follows the last `.` of the last
/// component of the path, unless that `.` starts the component or the
/// component is `..`.
pub open spec fn extension_of(path: Seq<char>) -> Option<Seq<char>> {
    let name = file_name_of(path);
    let dot = last_index_of(name, '.');
    if dot <= 0 || name == seq!['.', '.'] {
        None
    } else {
        Some(name.skip(dot + 1))
    }
}

/// Whether `extension` is among `media_extensions`, case ignored.
pub open spec fn is_listed(extension: Seq<char>, media_extensions: Seq<Seq<char>>) -> bool {
    exists|i: int|
        0 <= i < media_extensions.len() && lowercase_of(#[trigger] media_extensions[i])
            == lowercase_of(extension)
}

/// Whether a file counts as media: it has an extension and the extension is
/// among `media_extensions`, case ignored.
pub open spec fn is_media(filename: Seq<char>, media_extensions: Seq<Seq<char>>) -> bool {
    match extension_of(filename) {
        Some(extension) => is_listed(extension, media_extensions),
        None => false,
    }
}

/// Whether a file record is intact: the size and the digest are those of the
/// contents.
pub open spec fn intact(info: FileInfoView) -> bool {
    info.size == info.data.len() && info.hash == sha256_hex(info.data)
}

/// A record that was intact and then had one field changed is no longer
/// intact: a changed size or a changed digest always shows, and changed
/// contents show unless they are of the same length and have the same
/// digest as the contents they replace.
pub proof fn lemma_corruption_shows(info: FileInfoView, corrupted: FileInfoView)
    requires
        intact(info),
    ensures
        corrupted.data == info.data && corrupted.hash == info.hash && corrupted.size != info.size
            ==> !intact(corrupted),
        corrupted.data == info.data && corrupted.size == info.size && corrupted.hash != info.hash
            ==> !intact(corrupted),
        corrupted.size == info.size && corrupted.hash == info.hash && (corrupted.data.len()
            != info.data.len() || sha256_hex(corrupted.data) != sha256_hex(info.data))
            ==> !intact(corrupted),
{
}

/// The limit in bytes for a limit of `megabytes`, held at the largest count
/// where it would pass it.
pub open spec fn limit_in_bytes(megabytes: u64) -> u64 {
    if megabytes * BYTES_PER_MB > u64::MAX {
        u64::MAX
    } else {
        (megabytes * BYTES_PER_MB) as u64
    }
}

/// The description of a file that is over the limit.
pub open spec fn too_large_text(size: u64, limit: u64) -> Seq<char> {
    "File too large: "@ + decimal((size / BYTES_PER_MB) as nat) + " MB (max: "@ + decimal(
        (limit / BYTES_PER_MB) as nat,
    ) + " MB)"@
}

/// The description of a file that fails its integrity check.
pub open spec fn mismatch_text() -> Seq<char> {
    "File hash mismatch"@
}

fn last_index(chars: &Vec<char>, from: usize, c: char) -> (r: Option<usize>)
    requires
        from <= chars@.len(),
    ensures
        match r {
            Some(i) => from <= i < chars@.len() && last_index_of(chars@.skip(from as int), c) == i
                - from,
            None => last_index_of(chars@.skip(from as int), c) == -1,
        },
{
    let ghost tail = chars@.skip(from as int);
    let mut i: usize = chars.len();
    assert(tail.take(i - from) =~= tail);
    while i > from
        invariant
            from <= i <= chars@.len(),
            tail == chars@.skip(from as int),
            last_index_of(tail, c) == last_index_of(tail.take(i - from), c),
        decreases i,
    {
        let ghost prefix = tail.take(i - from);
        assert(prefix.last() == chars@[i - 1]);
        assert(prefix.drop_last() =~= tail.take(i - from - 1));
        if chars[i - 1] == c {
            return Some(i - 1);
        }
        i -= 1;
    }
    None
}

fn ends_in_trailing_part(chars: &Vec<char>, end: usize) -> (r: bool)
    requires
        end <= chars@.len(),
    ensures
        r == has_trailing_part(chars@.take(end as int)),
{
    if end > 0 && chars[end - 1] == '/' {
        true
    } else {
        end >= 2 && chars[end - 1] == '.' && chars[end - 2] == '/'
    }
}

/// Checks files against a size limit and their own digest.
pub struct FileTransfer {
    max_file_size: u64,
}

impl FileTransfer {
    /// The limit in bytes.
    pub closed spec fn limit(&self) -> u64 {
        self.max_file_size
    }

    /// A file transfer with a limit of `max_file_size_mb` megabytes.
    pub fn new(max_file_size_mb: u64) -> (ft: FileTransfer)
        ensures
            ft.limit() == limit_in_bytes(max_file_size_mb),
    {
        if max_file_size_mb > u64::MAX / BYTES_PER_MB {
            FileTransfer { max_file_size: u64::MAX }
        } else {
            FileTransfer { max_file_size: max_file_size_mb * BYTES_PER_MB }
        }
    }

    /// The limit in bytes.
    pub fn max_file_size(&self) -> (limit: u64)
        ensures
            limit == self.limit(),
    {
        self.max_file_size
    }

    fn too_large(&self, size: u64) -> (e: ChatError)
        ensures
            e@ == ChatErrorView::FileTransfer(too_large_text(size, self.limit())),
    {
        let mut s = "File too large: ".to_owned();
        push_decimal(&mut s, size / BYTES_PER_MB);
        s.append(" MB (max: ");
        push_decimal(&mut s, self.max_file_size / BYTES_PER_MB);
        s.append(" MB)");
        assert(s@ =~= too_large_text(size, self.limit()));
        ChatError::FileTransfer(s)
    }

    /// Checks a size in bytes against the limit. Fails, with the
    /// description of a file that is too large, exactly where the size is
    /// over the limit.
    pub fn check_size(&self, size: u64) -> (r: Result<(), ChatError>)
        ensures
            match r {
                Ok(()) => size <= self.limit(),
                Err(e) => size > self.limit() && e@ == ChatErrorView::FileTransfer(
                    too_large_text(size, self.limit()),
                ),
            },
    {
        if size > self.max_file_size {
            Err(self.too_large(size))
        } else {
            Ok(())
        }
    }

    /// Makes the record under which a file is sent: its name, its size, the
    /// digest of its contents and the contents. Fails exactly where the
    /// contents are over the limit.
    pub fn prepare_file(&self, name: String, data: Vec<u8>) -> (r: Result<FileInfo, ChatError>)
        ensures
            match r {
                Ok(info) => {
                    &&& data@.len() <= self.limit()
                    &&& info@ == (FileInfoView {
                        name: name@,
                        size: data@.len() as u64,
                        hash: sha256_hex(data@),
                        data: data@,
                    })
                    &&& intact(info@)
                    &&& info@.hash.len() == SHA256_HEX_LEN
                },
                Err(e) => data@.len() > self.limit() && e@ == ChatErrorView::FileTransfer(
                    too_large_text(data@.len() as u64, self.limit()),
                ),
            },
    {
        let size = data.len() as u64;
        if size > self.max_file_size {
            return Err(self.too_large(size));
        }
        let hash = sha256_hex_digest(data.as_slice());
        Ok(FileInfo { name, size, hash, data })
    }

    /// Checks a received file record. Accepts it exactly where its size is
    /// within the limit and the record is intact; a record over the limit is
    /// reported as too large, any other as a mismatch.
    pub fn verify_file(&self, file_info: &FileInfo) -> (r: Result<(), ChatError>)
        ensures
            file_info.hash@.len() != SHA256_HEX_LEN ==> r is Err,
            match r {
                Ok(()) => file_info.size <= self.limit() && intact(file_info@),
                Err(e) => if file_info.size > self.limit() {
                    e@ == ChatErrorView::FileTransfer(
                        too_large_text(file_info.size, self.limit()),
                    )
                } else {
                    !intact(file_info@) && e@ == ChatErrorView::FileTransfer(mismatch_text())
                },
            },
    {
        if file_info.size > self.max_file_size {
            return Err(self.too_large(file_info.size));
        }
        let hash = sha256_hex_digest(file_info.data.as_slice());
        if !same_text(hash.as_str(), file_info.hash.as_str()) {
            return Err(ChatError::FileTransfer("File hash mismatch".to_owned()));
        }
        if file_info.data.len() as u64 != file_info.size {
            return Err(ChatError::FileTransfer("File hash mismatch".to_owned()));
        }
        Ok(())
    }

    /// The status message that reports the progress of a transfer.
    pub fn create_progress_message(filename: &str, current: u64, total: u64) -> (m: Message)
        ensures
            m.timestamp.is_valid(),
            m.msg_type@ == MessageTypeView::Status(
                StatusUpdateView::TransferProgress(filename@, current, total),
            ),
    {
        Message::with_payload(
            MessageType::Status(
                StatusUpdate::TransferProgress(filename.to_owned(), current, total),
            ),
        )
    }

    /// The extension of a file name, if it has one, as `Path::extension`
    /// finds it where `/` is the separator.
    pub fn extension(filename: &str) -> (r: Option<String>)
        ensures
            match r {
                Some(extension) => extension_of(filename@) == Some(extension@),
                None => extension_of(filename@) is None,
            },
    {
        let mut chars = chars_of(filename);
        let mut end: usize = chars.len();
        assert(chars@.take(end as int) =~= chars@);
        while ends_in_trailing_part(&chars, end)
            invariant
                end <= chars@.len(),
                chars@ == filename@,
                without_trailing_parts(filename@) == without_trailing_parts(
                    chars@.take(end as int),
                ),
            decreases end,
        {
            assert(chars@.take(end as int).drop_last() =~= chars@.take(end - 1));
            end -= 1;
        }
        chars.truncate(end);
        assert(chars@ =~= filename@.take(end as int));
        assert(chars@ == without_trailing_parts(filename@));
        let total = chars.len();
        assert(chars@.skip(0) =~= chars@);
        let start = match last_index(&chars, 0, '/') {
            Some(i) => i + 1,
            None => 0,
        };
        let ghost name = chars@.skip(start as int);
        assert(name == file_name_of(filename@));
        let dot = match last_index(&chars, start, '.') {
            Some(i) => i,
            None => {
                return None;
            },
        };
        if dot == start {
            return None;
        }
        if chars.len() - start == 2 && chars[start] == '.' && chars[start + 1] == '.' {
            assert(name =~= seq!['.', '.']);
            return None;
        }
        assert(name != seq!['.', '.']) by {
            if name == seq!['.', '.'] {
                assert(name.len() == 2);
                assert(name[0] == '.' && name[1] == '.');
            }
        }
        let extension = string_of(&chars, dot + 1, chars.len());
        assert(extension@ =~= name.skip(dot - start + 1));
        Some(extension)
    }

    /// Whether a file counts as media: it has an extension and the extension
    /// is among `media_extensions`, case ignored.
    pub fn is_media_file(filename: &str, media_extensions: &[String]) -> (r: bool)
        ensures
            r == is_media(filename@, texts_of(media_extensions@)),
    {
        let extension = match FileTransfer::extension(filename) {
            Some(extension) => to_lowercase(extension.as_str()),
            None => {
                return false;
            },
        };
        let ghost raw = extension_of(filename@)->0;
        let mut i: usize = 0;
        while i < media_extensions.len()
            invariant
                i <= media_extensions@.len(),
                extension@ == lowercase_of(raw),
                extension_of(filename@) == Some(raw),
                forall|k: int|
                    0 <= k < i ==> lowercase_of(#[trigger] texts_of(media_extensions@)[k])
                        != lowercase_of(raw),
            decreases media_extensions@.len() - i,
        {
            let candidate = to_lowercase(media_extensions[i].as_str());
            if same_text(candidate.as_str(), extension.as_str()) {
                assert(lowercase_of(texts_of(media_extensions@)[i as int]) == lowercase_of(raw));
                return true;
            }
            i += 1;
        }
        false
    }
}

} // verus!
