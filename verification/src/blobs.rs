//! Handing out the contents of an attachment, piece by piece.

use vstd::prelude::*;

use crate::error::{Failure, InvalidInput};
use crate::hash::SHA512;

verus! {

/// The most bytes that one piece holds.
pub const CHUNK_BYTES: usize = 32768;

/// What is wrong with an upload, if anything: other than `size` bytes were
/// written, or what was written does not hash to `hash`.
pub open spec fn upload_check(size: u64, written: u64, hash: Seq<u8>, written_hash: Seq<u8>) -> Result<
    (),
    Failure,
> {
    if written != size {
        Err(Failure::InvalidInput(InvalidInput::ContentLength))
    } else if written_hash != hash {
        Err(Failure::HashMismatch)
    } else {
        Ok(())
    }
}

/// Whether an upload may take its place under `hash`: as many bytes must
/// have been written as were declared, and they must hash to `hash`.
pub fn check_upload(size: u64, written: u64, hash: &SHA512, written_hash: &SHA512) -> (r: Result<
    (),
    Failure,
>)
    ensures
        r == upload_check(size, written, hash@, written_hash@),
{
    if written != size {
        return Err(Failure::InvalidInput(InvalidInput::ContentLength));
    }
    if !written_hash.same(hash) {
        return Err(Failure::HashMismatch);
    }
    Ok(())
}

/// What stored contents of `stored` bytes are to an item that declares
/// them with `declared` bytes: of that size, or a contradiction.
pub open spec fn stored_size_check(stored: u64, declared: i64) -> Result<u64, Failure> {
    if declared >= 0 && stored == declared {
        Ok(stored)
    } else {
        Err(Failure::Integrity)
    }
}

/// The size of stored contents, where it is the size that the item
/// declares; `Integrity` where it is not.
pub fn check_stored_size(stored: u64, declared: i64) -> (r: Result<u64, Failure>)
    ensures
        r == stored_size_check(stored, declared),
{
    if declared < 0 {
        return Err(Failure::Integrity);
    }
    if stored != declared as u64 {
        return Err(Failure::Integrity);
    }
    Ok(stored)
}

/// The contents of an attachment on their way to a reader.
#[derive(Debug)]
pub struct FileStream {
    contents: Vec<u8>,
    size: u64,
    read_pos: usize,
}

/// The piece of `contents` that starts at `position`.
pub open spec fn chunk_at(contents: Seq<u8>, position: int) -> Seq<u8> {
    if position + CHUNK_BYTES <= contents.len() {
        contents.subrange(position, position + CHUNK_BYTES)
    } else {
        contents.subrange(position, contents.len() as int)
    }
}

impl FileStream {
    /// There is no reading beyond the end, and the size is that of the contents.
    #[verifier::type_invariant]
    spec fn well_formed(self) -> bool {
        self.read_pos <= self.contents@.len() && self.size == self.contents@.len()
    }

    /// All the contents.
    pub closed spec fn contents(&self) -> Seq<u8> {
        self.contents@
    }

    /// How many bytes have been handed out.
    pub closed spec fn position(&self) -> int {
        self.read_pos as int
    }

    /// The size of the contents in bytes.
    pub closed spec fn spec_size(&self) -> u64 {
        self.size
    }

    /// A stream over `contents`, which has `size` bytes.
    pub fn new(contents: Vec<u8>, size: u64) -> (stream: FileStream)
        requires
            contents@.len() == size,
        ensures
            stream.contents() == contents@,
            stream.spec_size() == size,
            stream.position() == 0,
    {
        FileStream { contents, size, read_pos: 0 }
    }

    /// The size of the contents in bytes.
    #[verifier::when_used_as_spec(spec_size)]
    pub fn size(&self) -> (size: u64)
        ensures
            size == self.spec_size(),
            size == self.contents().len(),
    {
        proof {
            use_type_invariant(self);
        }
        self.size
    }

    /// The next piece: the bytes from where the last piece ended, up to
    /// `CHUNK_BYTES` of them. `None` when all has been handed out.
    pub fn next_chunk(&mut self) -> (chunk: Option<Vec<u8>>)
        ensures
            final(self).contents() == old(self).contents(),
            final(self).spec_size() == old(self).spec_size(),
            0 <= old(self).position() <= old(self).contents().len(),
            match chunk {
                Some(bytes) => old(self).position() < old(self).contents().len() && bytes@
                    == chunk_at(old(self).contents(), old(self).position()) && bytes@.len() > 0
                    && final(self).position() == old(self).position() + bytes@.len(),
                None => old(self).position() == old(self).contents().len()
                    && final(self).position() == old(self).position(),
            },
    {
        proof {
            use_type_invariant(&*self);
        }
        let len = self.contents.len();
        if self.read_pos == len {
            return None;
        }
        let end = if len - self.read_pos > CHUNK_BYTES {
            self.read_pos + CHUNK_BYTES
        } else {
            len
        };
        let mut bytes: Vec<u8> = Vec::new();
        let mut i = self.read_pos;
        while i < end
            invariant
                self.read_pos <= i <= end <= self.contents@.len(),
                bytes@ == self.contents@.subrange(self.read_pos as int, i as int),
            decreases end - i,
        {
            bytes.push(self.contents[i]);
            assert(bytes@ =~= self.contents@.subrange(self.read_pos as int, i + 1));
            i += 1;
        }
        self.read_pos = end;
        Some(bytes)
    }

    /// All that has not been handed out yet, piece by piece, put together.
    pub fn read_to_end(&mut self) -> (rest: Vec<u8>)
        ensures
            final(self).contents() == old(self).contents(),
            final(self).position() == old(self).contents().len(),
            0 <= old(self).position() <= old(self).contents().len(),
            rest@ == old(self).contents().subrange(
                old(self).position(),
                old(self).contents().len() as int,
            ),
    {
        proof {
            use_type_invariant(&*self);
        }
        let mut rest: Vec<u8> = Vec::new();
        loop
            invariant
                self.contents() == old(self).contents(),
                old(self).position() <= self.position() <= self.contents().len(),
                rest@ == self.contents().subrange(old(self).position(), self.position()),
            ensures
                self.position() == self.contents().len(),
            decreases self.contents().len() - self.position(),
        {
            let ghost at = self.position();
            let ghost so_far = rest@;
            match self.next_chunk() {
                Some(mut bytes) => {
                    rest.append(&mut bytes);
                    assert(rest@ =~= self.contents().subrange(
                        old(self).position(),
                        self.position(),
                    ));
                },
                None => {
                    break ;
                },
            }
        }
        rest
    }
}

} // verus!
