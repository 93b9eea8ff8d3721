//! The logic of the virtual file system: resolving paths, cutting writes into blocks,
//! assembling reads from blocks, and the checks around creating, renaming and resizing.
use vstd::prelude::*;
use vstd::string::*;
use crate::error::ErrorInfo;
use crate::meta::FileMetaType;
use crate::tables::FileMeta;
use crate::hash::{md5_hex, md5_hex_digest};
use crate::text::{split_spec, split_str, last_index_of, lemma_last_index_of, rfind_char, lemma_split_nonempty};

verus! {

/// Bytes in one stored block of a file.
pub const CLOUD_FILE_BLOCK_SIZE: usize = 16777216;

/// Where cached blocks are kept when nothing else is configured.
pub const DEFAULT_TEMP_PATH: &'static str = "/var/lib/storage/temp";

/// One store of bytes into a single block: `take` bytes at `block_offset` of block
/// `block_index`, after which the file is `new_length` bytes long; `store_length` tells
/// whether that length is saved.
pub struct BlockWrite {
    pub block_index: i64,
    pub block_offset: u64,
    pub take: usize,
    pub new_length: usize,
    pub store_length: bool,
}

/// The write `plan_block_write` makes of `len` bytes at `offset`.
pub open spec fn block_write_spec(offset: i64, len: usize) -> BlockWrite {
    let pos = offset as usize;
    let block_offset = pos % CLOUD_FILE_BLOCK_SIZE;
    let take = if block_offset + len > CLOUD_FILE_BLOCK_SIZE { (CLOUD_FILE_BLOCK_SIZE - block_offset) as usize } else { len };
    BlockWrite {
        block_index: (pos / CLOUD_FILE_BLOCK_SIZE) as i64,
        block_offset: block_offset as u64,
        take,
        new_length: (pos + take) as usize,
        store_length: block_offset + len <= CLOUD_FILE_BLOCK_SIZE,
    }
}

/// Where a store of `len` bytes at file position `offset` lands: in the block and at the
/// offset within it that the position falls at; it takes all the bytes when they fit in
/// that block, else as many as reach the block's end, at least one when there are any;
/// the file is then as long as the position plus the bytes taken, and that length is saved
/// exactly when every byte was taken.
pub proof fn block_write_places_bytes(offset: i64, len: usize)
    requires
        (offset as usize) + len <= usize::MAX,
    ensures
        ({
            let w = block_write_spec(offset, len);
            &&& w.block_index * CLOUD_FILE_BLOCK_SIZE + w.block_offset == offset as usize
            &&& w.block_offset < CLOUD_FILE_BLOCK_SIZE
            &&& w.take <= len
            &&& w.block_offset + w.take <= CLOUD_FILE_BLOCK_SIZE
            &&& (w.block_offset + len <= CLOUD_FILE_BLOCK_SIZE ==> w.take == len)
            &&& (w.block_offset + len > CLOUD_FILE_BLOCK_SIZE ==> w.block_offset + w.take == CLOUD_FILE_BLOCK_SIZE)
            &&& (len > 0 ==> w.take > 0)
            &&& w.new_length == (offset as usize) + w.take
            &&& (w.store_length <==> w.take == len)
        }),
{
    let pos = (offset as usize) as int;
    let b = CLOUD_FILE_BLOCK_SIZE as int;
    vstd::arithmetic::div_mod::lemma_fundamental_div_mod(pos, b);
    assert(pos / b < 0x10000000000) by (nonlinear_arith)
        requires
            0 <= pos <= usize::MAX,
            b == 16777216,
    ;
}

/// Cuts a write of `len` bytes at `offset` to what fits in the block that `offset` falls in.
/// Only a write that fits entirely saves the new file length.
pub fn plan_block_write(offset: i64, len: usize) -> (w: BlockWrite)
    requires
        (offset as usize) + len <= usize::MAX,
    ensures
        w == block_write_spec(offset, len),
        w.block_index * CLOUD_FILE_BLOCK_SIZE + w.block_offset == offset as usize,
        w.block_offset < CLOUD_FILE_BLOCK_SIZE,
        w.take <= len,
        w.block_offset + w.take <= CLOUD_FILE_BLOCK_SIZE,
        len > 0 ==> w.take > 0,
        w.new_length == (offset as usize) + w.take,
        w.store_length <==> w.take == len,
{
    proof {
        block_write_places_bytes(offset, len);
    }
    let pos = offset as usize;
    let block_index = pos / CLOUD_FILE_BLOCK_SIZE;
    let block_offset = pos % CLOUD_FILE_BLOCK_SIZE;
    let block_size = block_offset + len;
    if block_size > CLOUD_FILE_BLOCK_SIZE {
        let sub = len - (block_size - CLOUD_FILE_BLOCK_SIZE);
        BlockWrite {
            block_index: block_index as i64,
            block_offset: block_offset as u64,
            take: sub,
            new_length: pos + sub,
            store_length: false,
        }
    } else {
        BlockWrite {
            block_index: block_index as i64,
            block_offset: block_offset as u64,
            take: len,
            new_length: pos + len,
            store_length: true,
        }
    }
}

/// One piece of a longer write: the bytes from `start` on, cut to one block.
pub struct WritePiece {
    pub start: usize,
    pub write: BlockWrite,
}

/// The pieces a write of `len` bytes at `offset` is stored as, in order: each piece is
/// the block write of the bytes that remain, at the offset they belong at.
pub open spec fn pieces_ok(offset: i64, len: usize, pieces: Seq<WritePiece>) -> bool {
    &&& pieces.len() >= 1
    &&& pieces[0].start == 0
    &&& forall|k: int| 0 <= k < pieces.len() ==> #[trigger] pieces[k].write == block_write_spec(
        (offset + pieces[k].start) as i64,
        (len - pieces[k].start) as usize,
    ) && pieces[k].start <= len
    &&& forall|k: int| 0 <= k < pieces.len() - 1 ==> #[trigger] pieces[k + 1].start == pieces[k].start + pieces[k].write.take
    &&& pieces.last().start + pieces.last().write.take == len
    &&& forall|k: int| 0 <= k < pieces.len() - 1 ==> #[trigger] pieces[k].start + pieces[k].write.take < len
}

proof fn lemma_block_write_progress(offset: i64, len: usize)
    requires
        0 <= offset,
        offset + len <= i64::MAX,
        offset + len <= usize::MAX,
    ensures
        block_write_spec(offset, len).take <= len,
        len > 0 ==> block_write_spec(offset, len).take > 0,
        block_write_spec(offset, len).block_offset + block_write_spec(offset, len).take <= CLOUD_FILE_BLOCK_SIZE,
        block_write_spec(offset, len).block_index == (offset as int) / (CLOUD_FILE_BLOCK_SIZE as int),
        block_write_spec(offset, len).block_offset == (offset as int) % (CLOUD_FILE_BLOCK_SIZE as int),
{
}

/// Cuts a write of `len` bytes at `offset` into the block writes that store it, one after
/// the other, until every byte is placed. A write of no bytes is still one piece, at any
/// offset.
pub fn write_pieces(offset: i64, len: usize) -> (pieces: Vec<WritePiece>)
    requires
        0 <= offset || len == 0,
        offset + len <= i64::MAX,
        offset + len <= usize::MAX,
    ensures
        pieces_ok(offset, len, pieces@),
{
    let mut pieces: Vec<WritePiece> = Vec::new();
    if offset < 0 {
        let w = plan_block_write(offset, 0);
        pieces.push(WritePiece { start: 0, write: w });
        assert(pieces@[0].write == block_write_spec((offset + 0) as i64, (len - 0) as usize));
        return pieces;
    }
    let mut start: usize = 0;
    loop
        invariant
            0 <= offset,
            offset + len <= i64::MAX,
            offset + len <= usize::MAX,
            start <= len,
            pieces@.len() == 0 ==> start == 0,
            pieces@.len() > 0 ==> pieces@.last().start + pieces@.last().write.take == start,
            pieces@.len() > 0 ==> pieces@[0].start == 0,
            forall|k: int| 0 <= k < pieces@.len() ==> #[trigger] pieces@[k].write == block_write_spec(
                (offset + pieces@[k].start) as i64,
                (len - pieces@[k].start) as usize,
            ) && pieces@[k].start <= len,
            forall|k: int| 0 <= k < pieces@.len() - 1 ==> #[trigger] pieces@[k + 1].start == pieces@[k].start
                + pieces@[k].write.take,
            forall|k: int| 0 <= k < pieces@.len() ==> #[trigger] pieces@[k].start + pieces@[k].write.take <= len,
            forall|k: int| 0 <= k < pieces@.len() - 1 ==> #[trigger] pieces@[k].start + pieces@[k].write.take < len,
            pieces@.len() > 0 ==> start < len,
        ensures
            pieces_ok(offset, len, pieces@),
        decreases len - start + (if pieces@.len() == 0 { 1int } else { 0int }),
    {
        let at = offset + start as i64;
        proof {
            lemma_block_write_progress(at, (len - start) as usize);
        }
        let w = plan_block_write(at, len - start);
        let ghost old_pieces = pieces@;
        let take = w.take;
        pieces.push(WritePiece { start, write: w });
        let ghost last_k = old_pieces.len() as int;
        assert(pieces@[last_k].start == start);
        start = start + take;
        if start == len {
            assert(forall|k: int| 0 <= k < pieces@.len() - 1 ==> pieces@[k] == old_pieces[k]);
            assert(pieces@.last().start + pieces@.last().write.take == len);
            assert(pieces@[0].start == 0);
            return pieces;
        }
        assert(forall|k: int| 0 <= k < pieces@.len() - 1 ==> pieces@[k] == old_pieces[k]);
    }
}

/// Gathers the bytes of a read from the blocks of a file, in block order.
pub struct BlockReader {
    pub start_block_index: i64,
    pub seek: u64,
    pub size: u32,
    pub body: Vec<u8>,
}

/// Division rounding toward zero, as Rust's `/` on integers.
pub open spec fn trunc_div(a: int, b: int) -> int {
    if a >= 0 { a / b } else { -((-a) / b) }
}

/// The remainder that goes with `trunc_div`, as Rust's `%` on integers.
pub open spec fn trunc_rem(a: int, b: int) -> int {
    a - b * trunc_div(a, b)
}

/// What `append_body` leaves of `body` after `bytes`: everything, or just the first
/// `size` bytes once that many are there.
pub open spec fn appended_body(body: Seq<u8>, bytes: Seq<u8>, size: u32) -> (Seq<u8>, bool) {
    if body.len() < size && size <= body.len() + bytes.len() {
        ((body + bytes).take(size as int), true)
    } else {
        (body + bytes, false)
    }
}

impl BlockReader {
    /// A read of `size` bytes at `offset`: it starts in block `offset / size of a block`,
    /// that many bytes into it.
    pub fn new(offset: i64, size: u32) -> (r: BlockReader)
        ensures
            r.start_block_index == trunc_div(offset as int, CLOUD_FILE_BLOCK_SIZE as int),
            r.seek == trunc_rem(offset as int, CLOUD_FILE_BLOCK_SIZE as int) as u64,
            r.size == size,
            r.body@.len() == 0,
    {
        BlockReader {
            start_block_index: offset / (CLOUD_FILE_BLOCK_SIZE as i64),
            seek: (offset % (CLOUD_FILE_BLOCK_SIZE as i64)) as u64,
            size,
            body: Vec::new(),
        }
    }

    /// The read needs block `block_index`: it lies at or after the starting block.
    pub fn wants(&self, block_index: i64) -> (b: bool)
        ensures
            b == (block_index >= self.start_block_index),
    {
        block_index >= self.start_block_index
    }

    /// How far into the next block to read: the starting offset for the first block read,
    /// zero for every read after it, a retried read included.
    pub fn take_seek(&mut self) -> (s: u64)
        ensures
            s == old(self).seek,
            final(self).seek == 0,
            final(self).start_block_index == old(self).start_block_index,
            final(self).size == old(self).size,
            final(self).body@ == old(self).body@,
    {
        let s = self.seek;
        self.seek = 0;
        s
    }

    /// Adds the bytes of a block, one at a time, stopping as soon as `size` bytes are
    /// gathered; `true` when the read is complete.
    pub fn append_body(&mut self, bytes: &[u8]) -> (done: bool)
        ensures
            (final(self).body@, done) == appended_body(old(self).body@, bytes@, old(self).size),
            final(self).seek == old(self).seek,
            final(self).start_block_index == old(self).start_block_index,
            final(self).size == old(self).size,
    {
        let ghost b0 = self.body@;
        let mut i: usize = 0;
        while i < bytes.len()
            invariant
                i <= bytes@.len(),
                self.body@ == b0 + bytes@.subrange(0, i as int),
                b0 == old(self).body@,
                self.size == old(self).size,
                self.seek == old(self).seek,
                self.start_block_index == old(self).start_block_index,
                b0.len() >= self.size || b0.len() + i < self.size,
            decreases bytes.len() - i,
        {
            self.body.push(bytes[i]);
            i = i + 1;
            assert(self.body@ =~= b0 + bytes@.subrange(0, i as int));
            if self.body.len() == self.size as usize {
                assert(b0.len() < self.size);
                assert(self.size <= b0.len() + bytes@.len());
                assert(self.body@ =~= (b0 + bytes@).take(self.size as int));
                assert(appended_body(b0, bytes@, self.size) == (self.body@, true));
                assert(b0 == old(self).body@);
                assert(appended_body(old(self).body@, bytes@, old(self).size) == (self.body@, true));
                return true;
            }
        }
        assert(bytes@.subrange(0, bytes@.len() as int) =~= bytes@);

        false
    }
}

/// A failed block read is tried once more when the block was fetched into the cache.
pub fn retry_read(e: &ErrorInfo) -> (b: bool)
    ensures
        b == (*e is Retry),
{
    match e {
        ErrorInfo::Retry => true,
        _ => false,
    }
}

/// A query for one file record.
pub enum Lookup {
    ById(i64),
    ByParentAndName(i64, String),
}

/// What a path walk needs next: a record looked up, or nothing more.
pub enum PathStep {
    Query(Lookup),
    Done(Result<Option<FileMeta>, ErrorInfo>),
}

/// The id a walk continues under: that of the record reached, or 0 before any.
pub open spec fn parent_id_of(parent: Option<FileMeta>) -> int {
    match parent {
        Some(p) => p.id->0 as int,
        None => 0,
    }
}

/// The lookup `path_meta` makes for `name` under `parent_id`: the root record for the
/// empty name at the top, else the child of that name.
pub open spec fn path_meta_query(step: PathStep, parent_id: int, name: Seq<char>) -> bool {
    if parent_id == 0 && name.len() == 0 {
        step matches PathStep::Query(Lookup::ById(i)) && i == 1
    } else {
        step matches PathStep::Query(Lookup::ByParentAndName(p, n)) && p == parent_id && n@ == name
    }
}

/// Below a reached record, the next name is looked up among the children of that record,
/// by the record's own id; at the top, the empty name asks for the root record (id 1).
pub proof fn path_meta_lookup_is_under_reached_record(step: PathStep, found: Option<FileMeta>, name: Seq<char>)
    requires
        path_meta_query(step, parent_id_of(found), name),
        found matches Some(f) ==> f.id is Some,
    ensures
        found matches Some(f) ==> (f.id->0 != 0 || name.len() > 0 ==> (step matches PathStep::Query(
            Lookup::ByParentAndName(p, n),
        ) && p == f.id->0 && n@ == name)),
        found is None && name.len() > 0 ==> (step matches PathStep::Query(Lookup::ByParentAndName(p, n)) && p
            == 0 && n@ == name),
        found is None && name.len() == 0 ==> (step matches PathStep::Query(Lookup::ById(i)) && i == 1),
{
}

/// Resolving a path one name at a time, from the root.
pub struct PathMetaWalk {
    pub root_only: bool,
    pub names: Vec<String>,
    pub next: usize,
    pub parent: Option<FileMeta>,
}

impl PathMetaWalk {
    pub open spec fn names_view(&self) -> Seq<Seq<char>> {
        self.names@.map_values(|n: String| n@)
    }

    /// The walk of `path`: the path `/` is the root record; any other path is cut at
    /// every `/` and its names are followed from the top, where an empty name is the root.
    pub fn start(path: &str) -> (r: (PathMetaWalk, PathStep))
        ensures
            path@ == seq!['/'] ==> (r.0.root_only && (r.1 matches PathStep::Query(Lookup::ById(i)) && i == 1)),
            path@ != seq!['/'] ==> {
                &&& !r.0.root_only
                &&& r.0.names_view() == split_spec(path@, '/')
                &&& r.0.next == 0
                &&& r.0.parent is None
                &&& path_meta_query(r.1, 0, split_spec(path@, '/')[0])
            },
    {
        if path.unicode_len() == 1 && path.get_char(0) == '/' {
            assert(path@ =~= seq!['/']);
            (PathMetaWalk { root_only: true, names: Vec::new(), next: 0, parent: None }, PathStep::Query(Lookup::ById(1)))
        } else {
            let names = split_str(path, '/');
            proof {
                lemma_split_nonempty(path@, '/');
            }
            let step = if names[0].as_str().unicode_len() == 0 {
                PathStep::Query(Lookup::ById(1))
            } else {
                PathStep::Query(Lookup::ByParentAndName(0, names[0].clone()))
            };
            (PathMetaWalk { root_only: false, names, next: 0, parent: None }, step)
        }
    }

    /// Takes the record the last query found. A missing record ends the walk with
    /// `FileNotFound` of the name looked for; after the last name the walk ends with the
    /// record reached.
    pub fn on_result(&mut self, found: Option<FileMeta>) -> (step: PathStep)
        requires
            !old(self).root_only ==> old(self).next < old(self).names@.len(),
            found matches Some(f) ==> f.id is Some,
        ensures
            old(self).root_only ==> step == PathStep::Done(Ok(found)),
            !old(self).root_only && found is None ==> (step matches PathStep::Done(Err(ErrorInfo::FileNotFound(n)))
                && n@ == old(self).names_view()[old(self).next as int]),
            !old(self).root_only && found is Some ==> {
                &&& final(self).parent == found
                &&& final(self).next == old(self).next + 1
                &&& final(self).next == final(self).names@.len() ==> step == PathStep::Done(Ok(found))
                &&& final(self).next < final(self).names@.len() ==> path_meta_query(
                    step,
                    parent_id_of(found),
                    final(self).names_view()[final(self).next as int],
                )
            },
            final(self).root_only == old(self).root_only,
            final(self).names@ == old(self).names@,
    {
        if self.root_only {
            return PathStep::Done(Ok(found));
        }
        match found {
            None => PathStep::Done(Err(ErrorInfo::FileNotFound(self.names[self.next].clone()))),
            Some(f) => {
                let parent_id = match f.id {
                    Some(id) => id,
                    None => 0,
                };
                let found_again = Some(f);
                self.parent = found_again.clone();
                let count = self.names.len();
                assert(self.next < count);
                self.next = self.next + 1;
                if self.next == self.names.len() {
                    return PathStep::Done(Ok(found_again));
                }
                if parent_id == 0 && self.names[self.next].as_str().unicode_len() == 0 {
                    PathStep::Query(Lookup::ById(1))
                } else {
                    PathStep::Query(Lookup::ByParentAndName(parent_id, self.names[self.next].clone()))
                }
            },
        }
    }
}

/// A copy of an optional record.
pub fn clone_opt_meta(o: &Option<FileMeta>) -> (r: Option<FileMeta>)
    ensures
        r == *o,
{
    match o {
        Some(m) => Some(m.clone()),
        None => None,
    }
}

/// Finding a file by path under the root, one name at a time. A name that is not found
/// makes the next one be looked for under the root again.
pub struct FilePathWalk {
    pub root_only: bool,
    pub names: Vec<String>,
    pub next: usize,
    pub file: Option<FileMeta>,
}

/// The lookup `file_info_by_path` makes for `name` after reaching `file`.
pub open spec fn file_path_query(step: PathStep, file: Option<FileMeta>, name: Seq<char>) -> bool {
    step matches PathStep::Query(Lookup::ByParentAndName(p, n)) && n@ == name && p == match file {
        Some(f) => f.id->0 as int,
        None => 1,
    }
}

/// A name of a path is looked up under the record the name before it reached, by that
/// record's own id, and under the root (id 1) when nothing was reached.
pub proof fn path_lookup_is_under_reached_record(step: PathStep, file: Option<FileMeta>, name: Seq<char>)
    requires
        file_path_query(step, file, name),
        file matches Some(f) ==> f.id is Some,
    ensures
        file matches Some(f) ==> (step matches PathStep::Query(Lookup::ByParentAndName(p, n)) && p == f.id->0 && n@
            == name),
        file is None ==> (step matches PathStep::Query(Lookup::ByParentAndName(p, n)) && p == 1 && n@ == name),
{
}

impl FilePathWalk {
    pub open spec fn names_view(&self) -> Seq<Seq<char>> {
        self.names@.map_values(|n: String| n@)
    }

    /// The walk of `path`: the empty path and `/` are the root record; any other path is
    /// cut at every `/` and its names are followed from the root.
    pub fn start(path: &str) -> (r: (FilePathWalk, PathStep))
        ensures
            (path@.len() == 0 || path@ == seq!['/']) ==> (r.0.root_only && (r.1 matches PathStep::Query(Lookup::ById(i)) && i == 1)),
            !(path@.len() == 0 || path@ == seq!['/']) ==> {
                &&& !r.0.root_only
                &&& r.0.names_view() == split_spec(path@, '/')
                &&& r.0.next == 0
                &&& r.0.file is None
                &&& file_path_query(r.1, None, split_spec(path@, '/')[0])
            },
    {
        let n = path.unicode_len();
        if n == 0 || (n == 1 && path.get_char(0) == '/') {
            assert(n == 1 ==> path@ =~= seq!['/']);
            (FilePathWalk { root_only: true, names: Vec::new(), next: 0, file: None }, PathStep::Query(Lookup::ById(1)))
        } else {
            let names = split_str(path, '/');
            proof {
                lemma_split_nonempty(path@, '/');
            }
            let step = PathStep::Query(Lookup::ByParentAndName(1, names[0].clone()));
            (FilePathWalk { root_only: false, names, next: 0, file: None }, step)
        }
    }

    /// Takes the record the last query found; after the last name the walk ends with it,
    /// found or not.
    pub fn on_result(&mut self, found: Option<FileMeta>) -> (step: PathStep)
        requires
            !old(self).root_only ==> old(self).next < old(self).names@.len(),
            found matches Some(f) ==> f.id is Some,
        ensures
            old(self).root_only ==> step == PathStep::Done(Ok(found)),
            !old(self).root_only ==> {
                &&& final(self).file == found
                &&& final(self).next == old(self).next + 1
                &&& final(self).next == final(self).names@.len() ==> step == PathStep::Done(Ok(found))
                &&& final(self).next < final(self).names@.len() ==> file_path_query(
                    step,
                    found,
                    final(self).names_view()[final(self).next as int],
                )
                &&& (final(self).next < final(self).names@.len() && found is Some) ==> (step matches PathStep::Query(
                    Lookup::ByParentAndName(p, n),
                ) && p == found->0.id->0 && n@ == final(self).names_view()[final(self).next as int])
                &&& (final(self).next < final(self).names@.len() && found is None) ==> (step matches PathStep::Query(
                    Lookup::ByParentAndName(p, n),
                ) && p == 1 && n@ == final(self).names_view()[final(self).next as int])
            },
            final(self).root_only == old(self).root_only,
            final(self).names@ == old(self).names@,
    {
        if self.root_only {
            return PathStep::Done(Ok(found));
        }
        let count = self.names.len();
        assert(self.next < count);
        self.file = clone_opt_meta(&found);
        self.next = self.next + 1;
        if self.next == self.names.len() {
            return PathStep::Done(Ok(found));
        }
        let parent = match &found {
            Some(f) => match f.id {
                Some(id) => id,
                None => 0,
            },
            None => 1,
        };
        PathStep::Query(Lookup::ByParentAndName(parent, self.names[self.next].clone()))
    }
}

/// Cuts a path at its last `/` into the parent's path and the entry's name.
pub fn split_parent(path: &str) -> (r: (String, String))
    requires
        last_index_of(path@, '/') is Some,
    ensures
        r.0@ == path@.subrange(0, last_index_of(path@, '/')->0),
        r.1@ == path@.subrange(last_index_of(path@, '/')->0 + 1, path@.len() as int),
{
    proof {
        lemma_last_index_of(path@, '/');
    }
    let i = match rfind_char(path, '/') {
        Some(i) => i,
        None => 0,
    };
    let n = path.unicode_len();
    (path.substring_char(0, i).to_owned(), path.substring_char(i + 1, n).to_owned())
}

/// Refuses a new entry whose name is taken.
pub fn check_name_free(existing: &Option<FileMeta>, name: &str) -> (r: Result<(), ErrorInfo>)
    ensures
        existing is None ==> r is Ok,
        existing is Some ==> (r matches Err(ErrorInfo::FileAlreadyExist(n)) && n@ == name@),
{
    match existing {
        Some(_) => Err(ErrorInfo::FileAlreadyExist(name.to_owned())),
        None => Ok(()),
    }
}

/// The entry found, or `FileNotFound` of its name.
pub fn found_or_not_found(found: Option<FileMeta>, name: &str) -> (r: Result<FileMeta, ErrorInfo>)
    ensures
        found matches Some(f) ==> r == Ok::<FileMeta, ErrorInfo>(f),
        found is None ==> (r matches Err(ErrorInfo::FileNotFound(n)) && n@ == name@),
{
    match found {
        Some(f) => Ok(f),
        None => Err(ErrorInfo::FileNotFound(name.to_owned())),
    }
}

/// The entry a lookup found, or an error saying the file `[name]` does not exist.
pub fn lookup_result(found: Option<FileMeta>, name: &str) -> (r: Result<FileMeta, ErrorInfo>)
    ensures
        found matches Some(f) ==> r == Ok::<FileMeta, ErrorInfo>(f),
        found is None ==> (r matches Err(ErrorInfo::OTHER(c, m)) && c == 3 && m@ == "文件["@ + name@ + "]不存在"@),
{
    match found {
        Some(f) => Ok(f),
        None => {
            let mut m = "文件[".to_owned();
            m.append(name);
            m.append("]不存在");
            Err(ErrorInfo::new_string(3, m))
        },
    }
}

/// The error for a file record that is missing.
pub fn file_missing() -> (e: ErrorInfo)
    ensures
        e matches ErrorInfo::OTHER(c, m) && c == 3 && m@ == "文件不存在"@,
{
    ErrorInfo::new(3, "文件不存在")
}

/// The entry moved under `new_parent` as `new_name`; refused when there is no source, or
/// when the target name is taken.
pub fn rename_entry(source: Option<FileMeta>, target: &Option<FileMeta>, new_parent: u64, new_name: &str) -> (r: Result<
    FileMeta,
    ErrorInfo,
>)
    ensures
        source is None ==> (r matches Err(ErrorInfo::FileNotFound(n)) && n@ == "源文件不存在"@),
        source is Some && target is Some ==> (r matches Err(ErrorInfo::FileAlreadyExist(n)) && n@ == "目标文件已经存在"@),
        source is Some && target is None ==> (r matches Ok(f) && f == (FileMeta {
            parent_id: (new_parent as i32) as i64,
            name: f.name,
            ..source->0
        }) && f.name@ == new_name@),
{
    match source {
        None => Err(ErrorInfo::FileNotFound("源文件不存在".to_owned())),
        Some(mut f) => {
            if target.is_some() {
                return Err(ErrorInfo::FileAlreadyExist("目标文件已经存在".to_owned()));
            }
            f.parent_id = (new_parent as i32) as i64;
            f.name = new_name.to_owned();
            Ok(f)
        },
    }
}

/// The file record with its length set to `size`, when one is given.
pub fn resize(found: Option<FileMeta>, size: Option<u64>) -> (r: Result<FileMeta, ErrorInfo>)
    ensures
        found is None ==> (r matches Err(ErrorInfo::OTHER(c, m)) && c == 3 && m@ == "文件不存在"@),
        found matches Some(f) ==> (r matches Ok(g) && g == (match size {
            Some(n) => FileMeta { file_length: n as usize, ..f },
            None => f,
        })),
{
    match found {
        None => Err(file_missing()),
        Some(mut f) => {
            if let Some(n) = size {
                f.file_length = n as usize;
            }
            Ok(f)
        },
    }
}

/// A read needs the file and at least one of its blocks.
pub fn check_readable(found: &Option<FileMeta>, block_count: usize) -> (r: Result<(), ErrorInfo>)
    ensures
        found is None ==> (r matches Err(ErrorInfo::OTHER(c, m)) && c == 3 && m@ == "文件不存在"@),
        found is Some && block_count == 0 ==> (r matches Err(ErrorInfo::OTHER(c, m)) && c == 3 && m@
            == "文件块数据不存在"@),
        found is Some && block_count > 0 ==> r is Ok,
{
    if found.is_none() {
        return Err(file_missing());
    }
    if block_count == 0 {
        return Err(ErrorInfo::new(3, "文件块数据不存在"));
    }
    Ok(())
}

/// The file system's settings: where blocks are cached.
pub struct VirtualFileSystem {
    pub cache_file: String,
}

impl VirtualFileSystem {
    pub fn new(cache_file: &str) -> (v: VirtualFileSystem)
        ensures
            v.cache_file@ == cache_file@,
    {
        VirtualFileSystem { cache_file: cache_file.to_owned() }
    }

    /// Where block `part_id` is cached: `cache_file/part_id`.
    pub fn cache_path(&self, part_id: &str) -> (p: String)
        ensures
            p@ == self.cache_file@ + "/"@ + part_id@,
    {
        let mut p = self.cache_file.clone();
        p.append("/");
        p.append(part_id);
        p
    }
}

/// The piece lies in the block that its position falls in, starts at the position's offset
/// in that block, ends inside it, and holds a byte unless the write holds none.
pub open spec fn piece_fits(offset: i64, len: usize, p: WritePiece) -> bool {
    &&& p.write.block_index == (offset + p.start) / (CLOUD_FILE_BLOCK_SIZE as int)
    &&& p.write.block_offset == (offset + p.start) % (CLOUD_FILE_BLOCK_SIZE as int)
    &&& p.write.block_offset + p.write.take <= CLOUD_FILE_BLOCK_SIZE
    &&& (len > 0 ==> p.write.take > 0)
}

/// The body after the bytes of `blocks` are appended one block after the other, stopping
/// at the block that completes the read; the flag tells whether it completed.
pub open spec fn gather(body: Seq<u8>, blocks: Seq<Seq<u8>>, size: u32) -> (Seq<u8>, bool)
    decreases blocks.len(),
{
    if blocks.len() == 0 {
        (body, false)
    } else {
        let (b, done) = appended_body(body, blocks[0], size);
        if done {
            (b, true)
        } else {
            gather(b, blocks.drop_first(), size)
        }
    }
}

proof fn lemma_gather(body: Seq<u8>, blocks: Seq<Seq<u8>>, size: u32)
    requires
        size == 0 || body.len() < size,
    ensures
        gather(body, blocks, size) == (if 0 < size <= body.len() + blocks.flatten().len() {
            ((body + blocks.flatten()).take(size as int), true)
        } else {
            (body + blocks.flatten(), false)
        }),
    decreases blocks.len(),
{
    if blocks.len() == 0 {
        assert(body + blocks.flatten() =~= body);
    } else {
        let b0 = blocks[0];
        let rest = blocks.drop_first();
        assert(blocks.flatten() == b0 + rest.flatten());
        assert(body + blocks.flatten() =~= (body + b0) + rest.flatten());
        if body.len() < size && size <= body.len() + b0.len() {
            assert((body + blocks.flatten()).take(size as int) =~= (body + b0).take(size as int));
        } else {
            lemma_gather(body + b0, rest, size);
        }
    }
}

/// A read gives back the first `size` bytes of the blocks it reads, taken one after the
/// other, and is complete once they hold that many; when they hold fewer, or no size is
/// asked, it gives back all of their bytes.
pub proof fn read_gathers_prefix(blocks: Seq<Seq<u8>>, size: u32)
    ensures
        0 < size <= blocks.flatten().len() ==> gather(Seq::empty(), blocks, size) == (
            blocks.flatten().take(size as int),
            true,
        ),
        !(0 < size <= blocks.flatten().len()) ==> gather(Seq::empty(), blocks, size) == (blocks.flatten(), false),
{
    lemma_gather(Seq::empty(), blocks, size);
    assert(Seq::<u8>::empty() + blocks.flatten() =~= blocks.flatten());
}

/// Every piece of a write lies inside one block: it starts at the block and offset its
/// position falls in and does not run past the block's end, and it holds at least one
/// byte unless the write holds none.
pub proof fn write_pieces_fit_blocks(offset: i64, len: usize, pieces: Seq<WritePiece>)
    requires
        0 <= offset,
        offset + len <= i64::MAX,
        offset + len <= usize::MAX,
        pieces_ok(offset, len, pieces),
    ensures
        forall|k: int| 0 <= k < pieces.len() ==> piece_fits(offset, len, #[trigger] pieces[k]),
{
    assert forall|k: int| 0 <= k < pieces.len() implies piece_fits(offset, len, #[trigger] pieces[k]) by {
        let st = pieces[k].start;
        let at = (offset + st) as i64;
        lemma_block_write_progress(at, (len - st) as usize);
        if len > 0 && k < pieces.len() - 1 {
            assert(st + pieces[k].write.take < len);
        }
        if len > 0 && k == pieces.len() - 1 {
            if st == len {
                if k > 0 {
                    assert(pieces[k - 1].start + pieces[k - 1].write.take < len);
                    let j = k - 1;
                    assert(pieces[j + 1].start == pieces[j].start + pieces[j].write.take);
                } else {
                    assert(pieces[0].start == 0);
                }
            }
        }
    }
}

/// The hash recorded for the bytes written into a block: their MD5.
pub fn part_hash(data: &[u8]) -> (h: String)
    ensures
        h@ == md5_hex(data@),
{
    md5_hex_digest(data)
}

/// Where piece `k` of a write lands: block `offset / size of a block + k`; the first piece
/// at the offset's position in its block and every later one at the block's start; every
/// piece but the last runs to the end of its block, and the last one ends the write.
proof fn lemma_piece_geometry(offset: i64, len: usize, pieces: Seq<WritePiece>, k: int)
    requires
        0 <= offset,
        offset + len <= i64::MAX,
        offset + len <= usize::MAX,
        pieces_ok(offset, len, pieces),
        0 <= k < pieces.len(),
    ensures
        pieces[k].write.block_index == (offset as int) / (CLOUD_FILE_BLOCK_SIZE as int) + k,
        pieces[k].write.block_offset == (if k == 0 { (offset as int) % (CLOUD_FILE_BLOCK_SIZE as int) } else { 0 }),
        pieces[k].write.block_offset + pieces[k].write.take <= CLOUD_FILE_BLOCK_SIZE,
        k < pieces.len() - 1 ==> pieces[k].write.block_offset + pieces[k].write.take == CLOUD_FILE_BLOCK_SIZE,
        k < pieces.len() - 1 ==> pieces[k + 1].start == pieces[k].start + pieces[k].write.take,
        pieces[k].start + pieces[k].write.take <= len,
        k == pieces.len() - 1 ==> pieces[k].start + pieces[k].write.take == len,
    decreases k,
{
    let bsz = CLOUD_FILE_BLOCK_SIZE as int;
    let st = pieces[k].start;
    lemma_block_write_progress((offset + st) as i64, (len - st) as usize);
    if k < pieces.len() - 1 {
        assert(pieces[k + 1].start == pieces[k].start + pieces[k].write.take);
        assert(pieces[k].start + pieces[k].write.take < len);
    }
    if k > 0 {
        lemma_piece_geometry(offset, len, pieces, k - 1);
        let prev = pieces[k - 1];
        let pos = offset + prev.start;
        assert(prev.write.block_offset + prev.write.take == bsz);
        assert(prev.write.block_index == pos / bsz);
        assert(prev.write.block_offset == pos % bsz);
        assert(offset + st == pos + (bsz - pos % bsz));
        assert((offset + st) % bsz == 0 && (offset + st) / bsz == pos / bsz + 1) by {
            vstd::arithmetic::div_mod::lemma_fundamental_div_mod(pos, bsz);
            vstd::arithmetic::div_mod::lemma_fundamental_div_mod_converse(offset + st, bsz, pos / bsz + 1, 0);
        }
    }
}

/// A block file after `bytes` are written at position `at`, as a file is written in
/// place: the bytes before stay, a gap before `at` reads as zeros, and the bytes after the
/// written ones stay.
pub open spec fn store_at(block: Seq<u8>, at: int, bytes: Seq<u8>) -> Seq<u8> {
    let padded = if at > block.len() {
        block + Seq::new((at - block.len()) as nat, |i: int| 0u8)
    } else {
        block
    };
    padded.take(at) + bytes + if at + bytes.len() < padded.len() {
        padded.skip(at + bytes.len())
    } else {
        Seq::empty()
    }
}

/// The cached file of block `i`; a block that has none is empty.
pub open spec fn cached_block(cache: Map<int, Seq<u8>>, i: int) -> Seq<u8> {
    if cache.dom().contains(i) {
        cache[i]
    } else {
        Seq::empty()
    }
}

/// No cached block runs past the size of a block.
pub open spec fn cache_wf(cache: Map<int, Seq<u8>>) -> bool {
    forall|i: int| cache.dom().contains(i) ==> (#[trigger] cache[i]).len() <= CLOUD_FILE_BLOCK_SIZE
}

/// The cache after the first `k` pieces of a write of `data` are stored, each into its
/// block at its offset.
pub open spec fn store_pieces(cache: Map<int, Seq<u8>>, data: Seq<u8>, pieces: Seq<WritePiece>, k: int) -> Map<
    int,
    Seq<u8>,
>
    decreases k,
{
    if k <= 0 {
        cache
    } else {
        let c = store_pieces(cache, data, pieces, k - 1);
        let p = pieces[k - 1];
        c.insert(
            p.write.block_index as int,
            store_at(
                cached_block(c, p.write.block_index as int),
                p.write.block_offset as int,
                data.subrange(p.start as int, p.start + p.write.take),
            ),
        )
    }
}

/// What a read at `offset` takes from the cache, for `n` blocks in order: the block that
/// `offset` falls in from the offset's position in it (nothing when the block is shorter),
/// then the next blocks whole.
pub open spec fn read_blocks(cache: Map<int, Seq<u8>>, offset: int, n: int) -> Seq<Seq<u8>> {
    let first = offset / (CLOUD_FILE_BLOCK_SIZE as int);
    let seek = offset % (CLOUD_FILE_BLOCK_SIZE as int);
    Seq::new(
        n as nat,
        |j: int|
            if j == 0 {
                let b = cached_block(cache, first);
                if seek <= b.len() {
                    b.skip(seek)
                } else {
                    Seq::empty()
                }
            } else {
                cached_block(cache, first + j)
            },
    )
}

proof fn lemma_store_at(block: Seq<u8>, at: int, bytes: Seq<u8>)
    requires
        0 <= at,
        block.len() <= CLOUD_FILE_BLOCK_SIZE,
        at + bytes.len() <= CLOUD_FILE_BLOCK_SIZE,
    ensures
        store_at(block, at, bytes).len() <= CLOUD_FILE_BLOCK_SIZE,
        at <= store_at(block, at, bytes).len(),
        store_at(block, at, bytes).skip(at).take(bytes.len() as int) == bytes,
        at + bytes.len() == CLOUD_FILE_BLOCK_SIZE ==> store_at(block, at, bytes).skip(at) == bytes,
{
    let padded = if at > block.len() {
        block + Seq::new((at - block.len()) as nat, |i: int| 0u8)
    } else {
        block
    };
    let rest = if at + bytes.len() < padded.len() {
        padded.skip(at + bytes.len())
    } else {
        Seq::<u8>::empty()
    };
    let r = store_at(block, at, bytes);
    assert(padded.len() >= at);
    assert(r == padded.take(at) + bytes + rest);
    assert(r.skip(at) =~= bytes + rest);
    assert((bytes + rest).take(bytes.len() as int) =~= bytes);
    if at + bytes.len() == CLOUD_FILE_BLOCK_SIZE {
        assert(rest =~= Seq::<u8>::empty());
        assert(bytes + rest =~= bytes);
    }
}

/// A block that no stored piece writes keeps its cached file.
proof fn lemma_store_pieces_frame(cache: Map<int, Seq<u8>>, data: Seq<u8>, pieces: Seq<WritePiece>, m: int, idx: int)
    requires
        0 <= m <= pieces.len(),
        forall|j: int| 0 <= j < m ==> (#[trigger] pieces[j]).write.block_index as int != idx,
    ensures
        cached_block(store_pieces(cache, data, pieces, m), idx) == cached_block(cache, idx),
    decreases m,
{
    if m > 0 {
        assert(pieces[m - 1].write.block_index as int != idx);
        lemma_store_pieces_frame(cache, data, pieces, m - 1, idx);
    }
}

/// Stored pieces keep every cached block within the size of a block.
proof fn lemma_store_pieces_wf(
    cache: Map<int, Seq<u8>>,
    offset: i64,
    len: usize,
    data: Seq<u8>,
    pieces: Seq<WritePiece>,
    m: int,
)
    requires
        0 <= offset,
        offset + len <= i64::MAX,
        offset + len <= usize::MAX,
        pieces_ok(offset, len, pieces),
        data.len() == len,
        cache_wf(cache),
        0 <= m <= pieces.len(),
    ensures
        cache_wf(store_pieces(cache, data, pieces, m)),
    decreases m,
{
    if m > 0 {
        lemma_store_pieces_wf(cache, offset, len, data, pieces, m - 1);
        lemma_piece_geometry(offset, len, pieces, m - 1);
        let c = store_pieces(cache, data, pieces, m - 1);
        let p = pieces[m - 1];
        let b = cached_block(c, p.write.block_index as int);
        assert(b.len() <= CLOUD_FILE_BLOCK_SIZE);
        let d = data.subrange(p.start as int, p.start + p.write.take);
        lemma_store_at(b, p.write.block_offset as int, d);
        let c2 = store_pieces(cache, data, pieces, m);
        assert forall|i: int| c2.dom().contains(i) implies (#[trigger] c2[i]).len() <= CLOUD_FILE_BLOCK_SIZE by {
            if i != p.write.block_index as int {
                assert(c.dom().contains(i));
            }
        }
    }
}

/// After the first `m` pieces are stored, the block of an earlier piece `k` holds that
/// piece's bytes written over what the block held before the write.
proof fn lemma_store_pieces_at(
    cache: Map<int, Seq<u8>>,
    offset: i64,
    len: usize,
    data: Seq<u8>,
    pieces: Seq<WritePiece>,
    k: int,
    m: int,
)
    requires
        0 <= offset,
        offset + len <= i64::MAX,
        offset + len <= usize::MAX,
        pieces_ok(offset, len, pieces),
        0 <= k < m <= pieces.len(),
    ensures
        cached_block(store_pieces(cache, data, pieces, m), pieces[k].write.block_index as int) == store_at(
            cached_block(cache, pieces[k].write.block_index as int),
            pieces[k].write.block_offset as int,
            data.subrange(pieces[k].start as int, pieces[k].start + pieces[k].write.take),
        ),
    decreases m,
{
    let idx = pieces[k].write.block_index as int;
    lemma_piece_geometry(offset, len, pieces, k);
    if m == k + 1 {
        assert forall|j: int| 0 <= j < k implies (#[trigger] pieces[j]).write.block_index as int != idx by {
            lemma_piece_geometry(offset, len, pieces, j);
        }
        lemma_store_pieces_frame(cache, data, pieces, k, idx);
    } else {
        lemma_piece_geometry(offset, len, pieces, m - 1);
        lemma_store_pieces_at(cache, offset, len, data, pieces, k, m - 1);
    }
}

/// What the read takes of the block of piece `k` after the whole write is stored: that
/// piece's bytes first, and nothing else for a piece that runs to the end of its block.
proof fn lemma_read_block_piece(
    cache: Map<int, Seq<u8>>,
    offset: i64,
    len: usize,
    data: Seq<u8>,
    pieces: Seq<WritePiece>,
    k: int,
)
    requires
        0 <= offset,
        offset + len <= i64::MAX,
        offset + len <= usize::MAX,
        pieces_ok(offset, len, pieces),
        data.len() == len,
        cache_wf(cache),
        0 <= k < pieces.len(),
    ensures
        ({
            let rb = read_blocks(store_pieces(cache, data, pieces, pieces.len() as int), offset as int, pieces.len() as int);
            let d = data.subrange(pieces[k].start as int, pieces[k].start + pieces[k].write.take);
            &&& rb[k].len() >= d.len()
            &&& rb[k].take(d.len() as int) == d
            &&& k < pieces.len() - 1 ==> rb[k] == d
        }),
{
    let n = pieces.len() as int;
    let fc = store_pieces(cache, data, pieces, n);
    let rb = read_blocks(fc, offset as int, n);
    let p = pieces[k];
    let d = data.subrange(p.start as int, p.start + p.write.take);
    lemma_piece_geometry(offset, len, pieces, k);
    lemma_store_pieces_at(cache, offset, len, data, pieces, k, n);
    let old_b = cached_block(cache, p.write.block_index as int);
    assert(old_b.len() <= CLOUD_FILE_BLOCK_SIZE);
    lemma_store_at(old_b, p.write.block_offset as int, d);
    let stored = store_at(old_b, p.write.block_offset as int, d);
    assert(cached_block(fc, p.write.block_index as int) == stored);
    if k == 0 {
        assert(rb[0] == stored.skip(p.write.block_offset as int));
    } else {
        assert(p.write.block_index as int == (offset as int) / (CLOUD_FILE_BLOCK_SIZE as int) + k);
        assert(rb[k] == stored);
        assert(stored.skip(0) =~= stored);
    }
}

/// From piece `k` on, the blocks the read takes begin with the bytes of the write from that
/// piece's start to its end.
proof fn lemma_read_suffix(
    cache: Map<int, Seq<u8>>,
    offset: i64,
    len: usize,
    data: Seq<u8>,
    pieces: Seq<WritePiece>,
    k: int,
)
    requires
        0 <= offset,
        offset + len <= i64::MAX,
        offset + len <= usize::MAX,
        pieces_ok(offset, len, pieces),
        data.len() == len,
        cache_wf(cache),
        0 <= k < pieces.len(),
    ensures
        ({
            let rb = read_blocks(store_pieces(cache, data, pieces, pieces.len() as int), offset as int, pieces.len() as int);
            &&& rb.skip(k).flatten().len() >= len - pieces[k].start
            &&& rb.skip(k).flatten().take(len - pieces[k].start) == data.subrange(pieces[k].start as int, len as int)
        }),
    decreases pieces.len() - k,
{
    let n = pieces.len() as int;
    let rb = read_blocks(store_pieces(cache, data, pieces, n), offset as int, n);
    let p = pieces[k];
    let d = data.subrange(p.start as int, p.start + p.write.take);
    lemma_piece_geometry(offset, len, pieces, k);
    lemma_read_block_piece(cache, offset, len, data, pieces, k);
    let sk = rb.skip(k);
    assert(sk.first() == rb[k]);
    assert(sk.drop_first() =~= rb.skip(k + 1));
    assert(sk.flatten() == rb[k] + rb.skip(k + 1).flatten());
    if k == n - 1 {
        assert(rb.skip(k + 1) =~= Seq::<Seq<u8>>::empty());
        assert(rb.skip(k + 1).flatten() =~= Seq::<u8>::empty());
        assert(sk.flatten() =~= rb[k]);
        assert(p.start + p.write.take == len);
        assert(d =~= data.subrange(p.start as int, len as int));
    } else {
        lemma_read_suffix(cache, offset, len, data, pieces, k + 1);
        let next = pieces[k + 1].start;
        assert(next == p.start + p.write.take);
        assert(rb[k] == d);
        let rest = rb.skip(k + 1).flatten();
        assert(rest.take(len - next) == data.subrange(next as int, len as int));
        assert((d + rest).take(len - p.start) =~= d + rest.take(len - next));
        assert(d + data.subrange(next as int, len as int) =~= data.subrange(p.start as int, len as int));
    }
}

/// Reading back a write: once a write of `data` at `offset` is stored piece by piece into
/// the block cache, a read of up to that many bytes at the same offset, taking the blocks
/// in order, completes with the first bytes of `data`. The cache keeps every block within
/// a block's size.
pub proof fn read_after_write(
    cache: Map<int, Seq<u8>>,
    offset: i64,
    data: Seq<u8>,
    pieces: Seq<WritePiece>,
    size: u32,
)
    requires
        0 <= offset,
        offset + data.len() <= i64::MAX,
        offset + data.len() <= usize::MAX,
        pieces_ok(offset, data.len() as usize, pieces),
        cache_wf(cache),
        0 < size <= data.len(),
    ensures
        cache_wf(store_pieces(cache, data, pieces, pieces.len() as int)),
        gather(
            Seq::empty(),
            read_blocks(store_pieces(cache, data, pieces, pieces.len() as int), offset as int, pieces.len() as int),
            size,
        ) == (data.take(size as int), true),
{
    let len = data.len() as usize;
    let n = pieces.len() as int;
    lemma_store_pieces_wf(cache, offset, len, data, pieces, n);
    lemma_read_suffix(cache, offset, len, data, pieces, 0);
    let rb = read_blocks(store_pieces(cache, data, pieces, n), offset as int, n);
    assert(rb.skip(0) =~= rb);
    assert(data.subrange(0, len as int) =~= data);
    let all = rb.flatten();
    assert(all.take(len as int) == data);
    read_gathers_prefix(rb, size);
    assert(all.take(size as int) =~= data.take(size as int));
}

} // verus!
