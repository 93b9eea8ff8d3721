//! The WebDAV view of the virtual file system: metadata, directory entries, and the
//! buffered cursor of an open file.
use vstd::prelude::*;
use vstd::utf8::encode_utf8;
use crate::meta::FileMetaType;
use crate::tables::FileMeta;
use crate::text::{append_bytes, bytes_to_vec};

verus! {

/// Bytes an open file buffers before it writes them out.
pub const BLOCK_SIZE: usize = 4194304;

/// Metadata of a file as WebDAV sees it.
#[derive(Debug, Clone)]
pub struct CloudFsMetaData {
    pub file_meta: FileMeta,
}

impl CloudFsMetaData {
    pub fn new(file_meta: FileMeta) -> (m: CloudFsMetaData)
        ensures
            m.file_meta == file_meta,
    {
        CloudFsMetaData { file_meta }
    }

    /// The file's length in bytes.
    pub fn len(&self) -> (n: u64)
        ensures
            n == self.file_meta.file_length as u64,
    {
        self.file_meta.file_length as u64
    }

    /// The modification time, in milliseconds since the Unix epoch: the file's creation time.
    pub fn modified(&self) -> (t: i64)
        ensures
            t == self.file_meta.create_time,
    {
        self.file_meta.create_time
    }

    /// The entry is a directory.
    pub fn is_dir(&self) -> (b: bool)
        ensures
            b == (self.file_meta.file_type == FileMetaType::DIR.spec_code()),
    {
        self.file_meta.file_type == FileMetaType::DIR.get_code()
    }
}

/// An entry of a directory listing.
#[derive(Debug, Clone)]
pub struct CloudDavDirEntry {
    pub file_meta: FileMeta,
}

impl CloudDavDirEntry {
    pub fn new(file_meta: FileMeta) -> (e: CloudDavDirEntry)
        ensures
            e.file_meta == file_meta,
    {
        CloudDavDirEntry { file_meta }
    }

    /// The entry's name as UTF-8 bytes.
    pub fn name(&self) -> (b: Vec<u8>)
        ensures
            b@ == encode_utf8(self.file_meta.name@),
    {
        bytes_to_vec(self.file_meta.name.as_str().as_bytes())
    }

    /// The entry's metadata.
    pub fn metadata(&self) -> (m: CloudFsMetaData)
        ensures
            m.file_meta == self.file_meta,
    {
        CloudFsMetaData::new(self.file_meta.clone())
    }
}

/// Bytes to write to the file at a byte offset.
pub struct DavWrite {
    pub offset: i64,
    pub data: Vec<u8>,
}

/// Bytes to read from the file at a byte offset.
pub struct DavRead {
    pub offset: i64,
    pub count: u32,
}

/// Where a seek is counted from, as `std::io::SeekFrom`.
pub enum SeekPos {
    Start(u64),
    Current(i64),
    End(i64),
}

/// An open file: a read/write position and the bytes written but not yet stored,
/// which belong at `temp_pos`.
#[derive(Debug)]
pub struct CloudDavFile {
    pub file_meta: FileMeta,
    pub pos: usize,
    pub temp_pos: usize,
    pub temp_buf: Vec<u8>,
}

/// The buffered bytes end at the position: writes since the last store are contiguous.
pub open spec fn cursor_consistent(f: CloudDavFile) -> bool {
    f.pos == f.temp_pos + f.temp_buf@.len()
}

/// The position a seek moves to, or `None` for a seek before the start.
pub open spec fn seek_target(pos: usize, file_length: usize, to: SeekPos) -> Option<int> {
    match to {
        SeekPos::Start(n) => Some(n as int),
        SeekPos::Current(off) => if off < 0 && -off > pos { None } else { Some(pos + off) },
        SeekPos::End(off) => if off < 0 && -off > file_length { None } else { Some(file_length + off) },
    }
}

/// A seek that the file can take without overflow.
pub open spec fn seek_ok(pos: usize, file_length: usize, to: SeekPos) -> bool {
    match to {
        SeekPos::Start(n) => n <= usize::MAX,
        SeekPos::Current(off) => off != i64::MIN && pos + off <= usize::MAX,
        SeekPos::End(off) => off != i64::MIN && file_length + off <= usize::MAX,
    }
}

/// The write state of an open file: the position, where the buffer belongs, the buffer.
pub open spec fn cursor_of(f: CloudDavFile) -> (int, int, Seq<u8>) {
    (f.pos as int, f.temp_pos as int, f.temp_buf@)
}

/// A write of `buf` on cursor `c`: the new cursor, and the bytes handed out to be stored,
/// with the offset they belong at, once more than a block is buffered.
pub open spec fn write_step(c: (int, int, Seq<u8>), buf: Seq<u8>) -> ((int, int, Seq<u8>), Option<(int, Seq<u8>)>) {
    let buffered = c.2 + buf;
    let pos = c.0 + buf.len();
    if buffered.len() > BLOCK_SIZE {
        ((pos, pos, Seq::empty()), Some((c.1, buffered)))
    } else {
        ((pos, c.1, buffered), None)
    }
}

/// What a flush hands out of cursor `c`: the buffer at its offset, if it holds anything.
pub open spec fn flush_out(c: (int, int, Seq<u8>)) -> Seq<(int, Seq<u8>)> {
    if c.2.len() > 0 {
        seq![(c.1, c.2)]
    } else {
        Seq::empty()
    }
}

/// The cursor after the writes of `bufs`, one after the other, with the stores they
/// hand out in order.
pub open spec fn write_all(c: (int, int, Seq<u8>), bufs: Seq<Seq<u8>>) -> ((int, int, Seq<u8>), Seq<(int, Seq<u8>)>)
    decreases bufs.len(),
{
    if bufs.len() == 0 {
        (c, Seq::empty())
    } else {
        let (c1, o) = write_step(c, bufs[0]);
        let (c2, rest) = write_all(c1, bufs.drop_first());
        (c2, match o {
            Some(w) => seq![w] + rest,
            None => rest,
        })
    }
}

/// The bytes of a run of stores, one after the other.
pub open spec fn stored_bytes(outs: Seq<(int, Seq<u8>)>) -> Seq<u8>
    decreases outs.len(),
{
    if outs.len() == 0 {
        Seq::empty()
    } else {
        outs[0].1 + stored_bytes(outs.drop_first())
    }
}

/// Each store of a run begins where the one before it ends, the first at `start`.
pub open spec fn contiguous(outs: Seq<(int, Seq<u8>)>, start: int) -> bool
    decreases outs.len(),
{
    outs.len() == 0 || (outs[0].0 == start && contiguous(outs.drop_first(), start + outs[0].1.len()))
}

proof fn lemma_write_all(c: (int, int, Seq<u8>), bufs: Seq<Seq<u8>>)
    requires
        c.0 == c.1 + c.2.len(),
    ensures
        ({
            let (cf, outs) = write_all(c, bufs);
            let all = outs + flush_out(cf);
            &&& contiguous(all, c.1)
            &&& stored_bytes(all) == c.2 + bufs.flatten()
        }),
    decreases bufs.len(),
{
    if bufs.len() == 0 {
        if c.2.len() > 0 {
            let all = Seq::<(int, Seq<u8>)>::empty() + flush_out(c);
            assert(all =~= seq![(c.1, c.2)]);
            assert(all.drop_first() =~= Seq::<(int, Seq<u8>)>::empty());
            assert(stored_bytes(all.drop_first()) =~= Seq::<u8>::empty());
            assert(c.2 + Seq::<u8>::empty() =~= c.2);
            assert(stored_bytes(all) =~= c.2);
            assert(contiguous(all.drop_first(), c.1 + c.2.len()));
        } else {
            assert(Seq::<(int, Seq<u8>)>::empty() + flush_out(c) =~= Seq::<(int, Seq<u8>)>::empty());
            assert(c.2 + bufs.flatten() =~= Seq::<u8>::empty());
        }
    } else {
        let b0 = bufs[0];
        let (c1, o) = write_step(c, b0);
        lemma_write_all(c1, bufs.drop_first());
        let (cf, rest) = write_all(c1, bufs.drop_first());
        let tail = rest + flush_out(cf);
        assert(bufs.flatten() == b0 + bufs.drop_first().flatten());
        match o {
            Some(w) => {
                let all = seq![w] + rest + flush_out(cf);
                assert(all =~= seq![w] + tail);
                assert(all.drop_first() =~= tail);
                assert(all[0] == w);
                assert(w == (c.1, c.2 + b0));
                assert(stored_bytes(all) == w.1 + stored_bytes(tail));
                assert(c.2 + b0 + bufs.drop_first().flatten() =~= c.2 + bufs.flatten());
            },
            None => {
                assert(c.2 + b0 + bufs.drop_first().flatten() =~= c.2 + bufs.flatten());
            },
        }
    }
}

/// Everything written to an open file is stored once, in order, where it was written: from
/// a cursor whose buffer ends at its position, the stores that a run of writes and the
/// flush after them hand out are contiguous from where the buffer begins, and hold the
/// buffered bytes followed by every written byte.
pub proof fn writes_are_stored_in_order(c: (int, int, Seq<u8>), bufs: Seq<Seq<u8>>)
    requires
        c.0 == c.1 + c.2.len(),
    ensures
        contiguous(write_all(c, bufs).1 + flush_out(write_all(c, bufs).0), c.1),
        stored_bytes(write_all(c, bufs).1 + flush_out(write_all(c, bufs).0)) == c.2 + bufs.flatten(),
{
    lemma_write_all(c, bufs);
}

impl CloudDavFile {
    pub fn new(file_meta: FileMeta) -> (f: CloudDavFile)
        ensures
            f.file_meta == file_meta,
            f.pos == 0 && f.temp_pos == 0 && f.temp_buf@.len() == 0,
    {
        CloudDavFile { file_meta, pos: 0, temp_pos: 0, temp_buf: Vec::new() }
    }

    /// Buffers `buf`. Once more than a block is buffered, the buffer is handed out to be
    /// stored at its offset and emptied, and the next writes are buffered from the position.
    pub fn write_bytes(&mut self, buf: &[u8]) -> (w: Option<DavWrite>)
        requires
            old(self).pos + buf@.len() <= usize::MAX,
        ensures
            final(self).file_meta == old(self).file_meta,
            final(self).pos == old(self).pos + buf@.len(),
            cursor_consistent(*old(self)) ==> cursor_consistent(*final(self)),
            old(self).temp_buf@.len() + buf@.len() > BLOCK_SIZE ==> {
                &&& w matches Some(w) && w.offset == old(self).temp_pos as i64 && w.data@ == old(self).temp_buf@ + buf@
                &&& final(self).temp_buf@.len() == 0
                &&& final(self).temp_pos == final(self).pos
            },
            old(self).temp_buf@.len() + buf@.len() <= BLOCK_SIZE ==> {
                &&& w is None
                &&& final(self).temp_buf@ == old(self).temp_buf@ + buf@
                &&& final(self).temp_pos == old(self).temp_pos
            },
            cursor_of(*final(self)) == write_step(cursor_of(*old(self)), buf@).0,
            match w {
                Some(w) => write_step(cursor_of(*old(self)), buf@).1 == Some((old(self).temp_pos as int, w.data@)),
                None => write_step(cursor_of(*old(self)), buf@).1 is None,
            },
    {
        append_bytes(&mut self.temp_buf, buf);
        if self.temp_buf.len() > BLOCK_SIZE {
            let mut data: Vec<u8> = Vec::new();
            std::mem::swap(&mut data, &mut self.temp_buf);
            let w = DavWrite { offset: self.temp_pos as i64, data };
            self.pos = self.pos + buf.len();
            self.temp_pos = self.pos;
            Some(w)
        } else {
            self.pos = self.pos + buf.len();
            None
        }
    }

    /// Reads `count` bytes at the position, which moves past them.
    pub fn read_bytes(&mut self, count: usize) -> (r: DavRead)
        requires
            old(self).pos + count <= usize::MAX,
        ensures
            r.offset == old(self).pos as i64,
            r.count == count as u32,
            final(self).pos == old(self).pos + count,
            final(self).temp_pos == old(self).temp_pos,
            final(self).temp_buf@ == old(self).temp_buf@,
            final(self).file_meta == old(self).file_meta,
    {
        let r = DavRead { offset: self.pos as i64, count: count as u32 };
        self.pos = self.pos + count;
        r
    }

    /// Moves the position; `None` for a seek before the start, which leaves it unchanged.
    pub fn seek(&mut self, to: SeekPos) -> (r: Option<u64>)
        requires
            seek_ok(old(self).pos, old(self).file_meta.file_length, to),
        ensures
            match seek_target(old(self).pos, old(self).file_meta.file_length, to) {
                Some(p) => r == Some(p as u64) && final(self).pos == p,
                None => r is None && final(self).pos == old(self).pos,
            },
            final(self).temp_pos == old(self).temp_pos,
            final(self).temp_buf@ == old(self).temp_buf@,
            final(self).file_meta == old(self).file_meta,
    {
        let (start, offset): (u64, i64) = match to {
            SeekPos::Start(npos) => {
                self.pos = npos as usize;
                return Some(npos);
            },
            SeekPos::Current(npos) => (self.pos as u64, npos),
            SeekPos::End(npos) => (self.file_meta.file_length as u64, npos),
        };
        if offset < 0 {
            let back = (-offset) as u64;
            if back > start {
                return None;
            }
            self.pos = (start - back) as usize;
        } else {
            self.pos = (start + offset as u64) as usize;
        }
        Some(self.pos as u64)
    }

    /// Hands out the buffered bytes, if any, to be stored at their offset, and resets the
    /// position and the buffer.
    pub fn flush(&mut self) -> (w: Option<DavWrite>)
        ensures
            old(self).temp_buf@.len() > 0 ==> (w matches Some(w) && w.offset == old(self).temp_pos as i64
                && w.data@ == old(self).temp_buf@),
            old(self).temp_buf@.len() == 0 ==> w is None,
            final(self).pos == 0 && final(self).temp_pos == 0 && final(self).temp_buf@.len() == 0,
            cursor_consistent(*final(self)),
            final(self).file_meta == old(self).file_meta,
            flush_out(cursor_of(*old(self))) == match w {
                Some(w) => seq![(old(self).temp_pos as int, w.data@)],
                None => Seq::<(int, Seq<u8>)>::empty(),
            },
    {
        let w = if self.temp_buf.len() > 0 {
            let mut data: Vec<u8> = Vec::new();
            std::mem::swap(&mut data, &mut self.temp_buf);
            Some(DavWrite { offset: self.temp_pos as i64, data })
        } else {
            None
        };
        self.pos = 0;
        self.temp_pos = 0;
        w
    }
}

} // verus!
