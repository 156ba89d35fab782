//! The log store: append/create named byte records and read them back whole
//! through a fixed-capacity buffer.
//!
//! `LogStore` is the single-volume, single-directory store the rest of the
//! crate is proved against: a set of named files, each an append-only byte
//! record. A write appends the whole payload to the named file (creating it
//! on first use) as one transaction; a read hands back the file's bytes in a
//! bounded buffer, reporting `BufferOverflow` rather than truncating when the
//! file does not fit. A device-backed store mirrors these contracts call for
//! call, surfacing its own per-stage failures through the same
//! `StorageError`.

use vstd::prelude::*;
use vstd::slice::slice_to_vec;

verus! {

/// Fixed capacity of the buffer a read accumulates into, in bytes.
pub const RET_BUF_SIZE: usize = 256;

/// Size of one chunk a read pulls from storage, in bytes.
pub const LOCAL_BUF_SIZE: usize = 32;

/// Why a log store operation failed. Every failure is reported to the
/// caller; none terminates the process, and the store stays usable.
#[derive(Clone, Copy, PartialEq, Eq, Structural, Debug)]
pub enum StorageError {
    /// The volume could not be opened (no or unreadable partition).
    VolumeOpenFailed,
    /// The root directory could not be opened.
    DirectoryOpenFailed,
    /// The named file could not be opened (missing file or invalid mode).
    FileOpenFailed,
    /// A chunked read failed mid-stream.
    ReadFailed,
    /// An append failed mid-stream.
    WriteFailed,
    /// The record does not fit the fixed read capacity; nothing partial is
    /// handed back.
    BufferOverflow,
}

/// Declares heapless::Vec, the fixed-capacity vector that backs the bounded
/// read buffer, so that it can stand in verified signatures; its contents
/// are only spoken of through `buf_bytes`.
#[verifier::external_type_specification]
#[verifier::external_body]
#[verifier::reject_recursive_types(T)]
pub struct ExHeaplessVec<T, const N: usize>(heapless::Vec<T, N>);

/// The fixed-capacity buffer a read accumulates into.
pub type ReadBuf = heapless::Vec<u8, 256>;

/// The bytes a read buffer holds, in order.
pub uninterp spec fn buf_bytes(v: heapless::Vec<u8, 256>) -> Seq<u8>;

/// Relies on heapless::Vec::new: the new vector is empty.
#[verifier::external_body]
fn buf_new() -> (r: ReadBuf)
    ensures
        buf_bytes(r) == Seq::<u8>::empty(),
{
    heapless::Vec::new()
}

/// Relies on heapless::Vec::extend_from_slice: it appends all of `s` when
/// the whole of it fits within the fixed capacity, and otherwise returns an
/// error leaving the vector unchanged.
#[verifier::external_body]
fn buf_extend(v: &mut ReadBuf, s: &[u8]) -> (r: bool)
    ensures
        r <==> buf_bytes(*old(v)).len() + s@.len() <= RET_BUF_SIZE,
        r ==> buf_bytes(*final(v)) == buf_bytes(*old(v)) + s@,
        !r ==> buf_bytes(*final(v)) == buf_bytes(*old(v)),
{
    v.extend_from_slice(s).is_ok()
}

/// Append one chunk pulled from storage to the bounded accumulation buffer.
/// The chunk lands whole when it fits; a chunk that would push the buffer
/// past its fixed capacity is refused as `BufferOverflow`, and the buffer is
/// left exactly as it was.
pub fn append_chunk(buf: &mut ReadBuf, chunk: &[u8]) -> (r: Result<(), StorageError>)
    ensures
        r is Ok <==> buf_bytes(*old(buf)).len() + chunk@.len() <= RET_BUF_SIZE,
        r is Ok ==> buf_bytes(*final(buf)) == buf_bytes(*old(buf)) + chunk@,
        r is Err ==> r == Err::<(), StorageError>(StorageError::BufferOverflow) && buf_bytes(
            *final(buf),
        ) == buf_bytes(*old(buf)),
{
    if buf_extend(buf, chunk) {
        Ok(())
    } else {
        Err(StorageError::BufferOverflow)
    }
}

/// One named record: an append-only run of bytes under a file name.
pub struct LogFile {
    pub name: Vec<u8>,
    pub bytes: Vec<u8>,
}

/// The bytes stored under `name` in `files`: those of the first file so
/// named, or `None` when no file carries the name.
pub open spec fn lookup(files: Seq<LogFile>, name: Seq<u8>) -> Option<Seq<u8>>
    decreases files.len(),
{
    if files.len() == 0 {
        None
    } else if files[0].name@ == name {
        Some(files[0].bytes@)
    } else {
        lookup(files.skip(1), name)
    }
}

/// A single-volume, single-directory store of named append-only records.
pub struct LogStore {
    files: Vec<LogFile>,
}

impl LogStore {
    /// The bytes currently stored under `name`, or `None` when no such
    /// record exists.
    pub closed spec fn contents(self, name: Seq<u8>) -> Option<Seq<u8>> {
        lookup(self.files@, name)
    }

    /// An empty volume: no record exists yet.
    pub fn new() -> (r: Self)
        ensures
            forall|n: Seq<u8>| r.contents(n) is None,
    {
        Self { files: Vec::new() }
    }
}

/// The bytes stored under `name`, or the empty run where no record exists
/// yet (a write's append starts from nothing).
pub open spec fn stored_or_empty(s: LogStore, name: Seq<u8>) -> Seq<u8> {
    match s.contents(name) {
        Some(b) => b,
        None => Seq::<u8>::empty(),
    }
}

/// One whole append transaction from `pre` to `post`: the payload lands in
/// full at the end of the named record, and every other record is untouched.
pub open spec fn appended(pre: LogStore, post: LogStore, name: Seq<u8>, content: Seq<u8>) -> bool {
    &&& post.contents(name) == Some(stored_or_empty(pre, name) + content)
    &&& forall|n: Seq<u8>| n != name ==> post.contents(n) == pre.contents(n)
}

/// Skipping past files that do not carry `name` leaves the lookup result
/// unchanged.
proof fn lemma_lookup_skip(files: Seq<LogFile>, i: int, name: Seq<u8>)
    requires
        0 <= i <= files.len(),
        forall|j: int| 0 <= j < i ==> files[j].name@ != name,
    ensures
        lookup(files, name) == lookup(files.skip(i), name),
    decreases i,
{
    if i > 0 {
        assert(files.skip(1).skip(i - 1) =~= files.skip(i));
        lemma_lookup_skip(files.skip(1), i - 1, name);
    } else {
        assert(files.skip(0) =~= files);
    }
}

/// Replacing the first file that carries `name` with another file carrying
/// `name` makes that file's bytes the stored bytes.
proof fn lemma_lookup_update_first(files: Seq<LogFile>, i: int, f2: LogFile, name: Seq<u8>)
    requires
        0 <= i < files.len(),
        forall|j: int| 0 <= j < i ==> files[j].name@ != name,
        files[i].name@ == name,
        f2.name@ == name,
    ensures
        lookup(files.update(i, f2), name) == Some(f2.bytes@),
    decreases i,
{
    if i == 0 {
        assert(files.update(0, f2)[0] == f2);
    } else {
        assert(files.update(i, f2)[0] == files[0]);
        assert(files.update(i, f2).skip(1) =~= files.skip(1).update(i - 1, f2));
        lemma_lookup_update_first(files.skip(1), i - 1, f2, name);
    }
}

/// Replacing a file whose name is not `n` with another file whose name is
/// not `n` leaves the lookup of `n` unchanged.
proof fn lemma_lookup_update_other(files: Seq<LogFile>, i: int, f2: LogFile, n: Seq<u8>)
    requires
        0 <= i < files.len(),
        files[i].name@ != n,
        f2.name@ != n,
    ensures
        lookup(files.update(i, f2), n) == lookup(files, n),
    decreases i,
{
    if i == 0 {
        assert(files.update(0, f2)[0] == f2);
        assert(files.update(0, f2).skip(1) =~= files.skip(1));
    } else {
        assert(files.update(i, f2)[0] == files[0]);
        assert(files.update(i, f2).skip(1) =~= files.skip(1).update(i - 1, f2));
        lemma_lookup_update_other(files.skip(1), i - 1, f2, n);
    }
}

/// Appending a file at the end is only seen by a lookup that found nothing
/// before and asks for the new file's name.
proof fn lemma_lookup_push(files: Seq<LogFile>, f: LogFile, n: Seq<u8>)
    ensures
        lookup(files.push(f), n) == (if lookup(files, n) is Some {
            lookup(files, n)
        } else if f.name@ == n {
            Some(f.bytes@)
        } else {
            None
        }),
    decreases files.len(),
{
    if files.len() == 0 {
        assert(files.push(f)[0] == f);
        assert(files.push(f).skip(1) =~= Seq::<LogFile>::empty());
    } else {
        assert(files.push(f)[0] == files[0]);
        assert(files.push(f).skip(1) =~= files.skip(1).push(f));
        lemma_lookup_push(files.skip(1), f, n);
    }
}

/// Whether two byte runs hold the same bytes.
fn bytes_equal(a: &[u8], b: &[u8]) -> (r: bool)
    ensures
        r <==> a@ == b@,
{
    if a.len() != b.len() {
        return false;
    }
    let n = a.len();
    let mut i: usize = 0;
    while i < n
        invariant
            n == a@.len() == b@.len(),
            i <= n,
            forall|j: int| 0 <= j < i ==> a@[j] == b@[j],
        decreases n - i,
    {
        if a[i] != b[i] {
            return false;
        }
        i = i + 1;
    }
    proof {
        assert(a@ =~= b@);
    }
    true
}

impl LogStore {
    /// The position of the record named `name`, if one exists.
    fn find(&self, name: &[u8]) -> (r: Option<usize>)
        ensures
            match r {
                Some(i) => i < self.files@.len() && self.files@[i as int].name@ == name@ && forall|
                    j: int,
                |
                    0 <= j < i ==> self.files@[j].name@ != name@,
                None => forall|j: int| 0 <= j < self.files@.len() ==> self.files@[j].name@ != name@,
            },
    {
        let n = self.files.len();
        let mut i: usize = 0;
        while i < n
            invariant
                n == self.files@.len(),
                i <= n,
                forall|j: int| 0 <= j < i ==> self.files@[j].name@ != name@,
            decreases n - i,
        {
            if bytes_equal(self.files[i].name.as_slice(), name) {
                return Some(i);
            }
            i = i + 1;
        }
        None
    }

    /// Append `content` to the record named `name`, creating the record on
    /// first use. The whole payload lands at the end of that record in one
    /// transaction, and no other record changes. The in-memory volume
    /// cannot fail; a device-backed store surfaces its per-stage failures
    /// through the same result type.
    pub fn write(&mut self, name: &[u8], content: &[u8]) -> (r: Result<(), StorageError>)
        ensures
            r is Ok,
            appended(*old(self), *final(self), name@, content@),
    {
        let found = self.find(name);
        match found {
            Some(idx) => {
                let ghost pre_files = self.files@;
                let ghost pre_file = self.files@[idx as int];
                let m = content.len();
                let mut k: usize = 0;
                while k < m
                    invariant
                        m == content@.len(),
                        k <= m,
                        idx < self.files@.len(),
                        self.files@.len() == pre_files.len(),
                        self.files@[idx as int].name@ == pre_file.name@,
                        self.files@[idx as int].bytes@ == pre_file.bytes@ + content@.take(k as int),
                        forall|j: int|
                            0 <= j < pre_files.len() && j != idx ==> self.files@[j]
                                == pre_files[j],
                    decreases m - k,
                {
                    let b = content[k];
                    self.files[idx].bytes.push(b);
                    k = k + 1;
                    proof {
                        assert(pre_file.bytes@ + content@.take(k as int) =~= (pre_file.bytes@
                            + content@.take(k - 1)).push(content@[k - 1]));
                    }
                }
                proof {
                    let f2 = self.files@[idx as int];
                    assert(pre_file.bytes@ + content@.take(m as int) =~= pre_file.bytes@
                        + content@);
                    assert(self.files@ =~= pre_files.update(idx as int, f2));
                    lemma_lookup_skip(pre_files, idx as int, name@);
                    assert(pre_files.skip(idx as int)[0] == pre_files[idx as int]);
                    assert(old(self).contents(name@) == Some(pre_file.bytes@));
                    lemma_lookup_update_first(pre_files, idx as int, f2, name@);
                    assert forall|n: Seq<u8>| n != name@ implies final(self).contents(n) == old(
                        self,
                    ).contents(n) by {
                        lemma_lookup_update_other(pre_files, idx as int, f2, n);
                    }
                }
                Ok(())
            },
            None => {
                let ghost pre_files = self.files@;
                proof {
                    lemma_lookup_skip(pre_files, pre_files.len() as int, name@);
                    assert(pre_files.skip(pre_files.len() as int) =~= Seq::<LogFile>::empty());
                }
                let f = LogFile { name: slice_to_vec(name), bytes: slice_to_vec(content) };
                self.files.push(f);
                proof {
                    assert(self.files@ == pre_files.push(self.files@.last()));
                    lemma_lookup_push(pre_files, self.files@.last(), name@);
                    assert(Seq::<u8>::empty() + content@ =~= content@);
                    assert forall|n: Seq<u8>| n != name@ implies final(self).contents(n) == old(
                        self,
                    ).contents(n) by {
                        lemma_lookup_push(pre_files, self.files@.last(), n);
                    }
                }
                Ok(())
            },
        }
    }

    /// Read back the whole record named `name` in fixed-size chunks,
    /// accumulating into a bounded buffer. A missing record is
    /// `FileOpenFailed`; a record larger than the buffer's fixed capacity is
    /// `BufferOverflow`, with nothing partial handed back.
    pub fn read(&self, name: &[u8]) -> (r: Result<ReadBuf, StorageError>)
        ensures
            self.contents(name@) is None ==> r == Err::<ReadBuf, StorageError>(
                StorageError::FileOpenFailed,
            ),
            self.contents(name@) is Some && self.contents(name@)->Some_0.len() <= RET_BUF_SIZE
                ==> r is Ok && buf_bytes(r->Ok_0) == self.contents(name@)->Some_0,
            self.contents(name@) is Some && self.contents(name@)->Some_0.len() > RET_BUF_SIZE
                ==> r == Err::<ReadBuf, StorageError>(StorageError::BufferOverflow),
    {
        let found = self.find(name);
        let idx = match found {
            Some(idx) => idx,
            None => {
                proof {
                    lemma_lookup_skip(self.files@, self.files@.len() as int, name@);
                    assert(self.files@.skip(self.files@.len() as int) =~= Seq::<
                        LogFile,
                    >::empty());
                }
                return Err(StorageError::FileOpenFailed);
            },
        };
        proof {
            lemma_lookup_skip(self.files@, idx as int, name@);
            assert(self.files@.skip(idx as int)[0] == self.files@[idx as int]);
        }
        let stored: &[u8] = self.files[idx].bytes.as_slice();
        let n = stored.len();
        let mut buf = buf_new();
        let mut pos: usize = 0;
        while pos < n
            invariant
                n == stored@.len(),
                pos <= n,
                pos <= RET_BUF_SIZE,
                buf_bytes(buf) == stored@.take(pos as int),
                self.contents(name@) == Some(stored@),
            decreases n - pos,
        {
            let end = if n - pos < LOCAL_BUF_SIZE {
                n
            } else {
                pos + LOCAL_BUF_SIZE
            };
            let chunk: &[u8] = &stored[pos..end];
            match append_chunk(&mut buf, chunk) {
                Ok(_) => {},
                Err(e) => {
                    return Err(e);
                },
            }
            proof {
                assert(stored@.take(pos as int) + stored@.subrange(pos as int, end as int)
                    =~= stored@.take(end as int));
            }
            pos = end;
        }
        proof {
            assert(stored@.take(n as int) =~= stored@);
        }
        Ok(buf)
    }
}

/// Two append transactions serialized one after the other leave the first
/// payload whole before the second: bus arbitration admits only whole
/// transactions in some order, so no run of the two payloads' bytes ever
/// interleaves.
pub proof fn lemma_appends_serialize(
    s0: LogStore,
    s1: LogStore,
    s2: LogStore,
    name: Seq<u8>,
    a: Seq<u8>,
    b: Seq<u8>,
)
    requires
        appended(s0, s1, name, a),
        appended(s1, s2, name, b),
    ensures
        s2.contents(name) == Some(stored_or_empty(s0, name) + a + b),
        forall|n: Seq<u8>| n != name ==> s2.contents(n) == s0.contents(n),
{
}

/// What a fresh write stores is exactly its payload, so a following read of
/// a record that fits the read capacity hands the payload back unchanged.
pub proof fn lemma_write_read_round_trip(s0: LogStore, s1: LogStore, name: Seq<u8>, content: Seq<u8>)
    requires
        s0.contents(name) is None,
        appended(s0, s1, name, content),
    ensures
        s1.contents(name) == Some(content),
{
    assert(Seq::<u8>::empty() + content =~= content);
}

} // verus!
