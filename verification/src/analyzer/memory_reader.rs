//! The [`ReadMemory`] trait over the traced image, and a simple in-memory
//! implementation backed by a byte buffer.

use vstd::prelude::*;

verus! {

/// Memory reader over the traced binary image.
pub trait ReadMemory: Sized {
    /// Error for memory reading
    type Error;

    /// Callback at the beginning of a decode run, so one reader can be
    /// reused across several streams.
    fn at_decode_begin(&mut self) -> (r: Result<(), Self::Error>);

    /// Read up to `size` contiguous bytes at the virtual address `address`.
    ///
    /// Short reads are allowed and signal a mapping boundary; the caller
    /// learns the read length from the returned bytes.
    fn read_memory(&mut self, address: u64, size: usize) -> (r: Result<Vec<u8>, Self::Error>)
        ensures
            r matches Ok(v) ==> v@.len() <= size,
    ;
}

/// The index of the mapping that may cover `address`: the last entry of
/// `starts` (sorted ascending) whose start address is at or below
/// `address`, or `None` when every mapping starts above it.
pub fn select_entry(starts: &Vec<u64>, address: u64) -> (r: Option<usize>)
    requires
        forall|a: int, b: int| 0 <= a < b < starts@.len() ==> starts@[a] <= starts@[b],
    ensures
        (match r {
            Some(i) => i < starts@.len() && starts@[i as int] <= address && (forall|j: int|
                i < j < starts@.len() ==> starts@[j] > address),
            None => forall|j: int| 0 <= j < starts@.len() ==> starts@[j] > address,
        }),
{
    let mut i: usize = starts.len();
    while i > 0
        invariant
            i <= starts@.len(),
            forall|j: int| i <= j < starts@.len() ==> starts@[j] > address,
        decreases i,
    {
        i = i - 1;
        if starts[i] <= address {
            return Some(i);
        }
    }
    None
}

/// The window a read of `size` bytes at `address` selects inside a mapping
/// of `map_len` bytes based at `base`: the start offset into the mapping
/// and the read length, clamped to the mapping's end. `None` when the
/// address is outside the mapping or nothing can be read.
pub fn mapping_window(base: u64, map_len: usize, address: u64, size: usize) -> (r: Option<
    (usize, usize),
>)
    ensures
        match r {
            Some(w) => base <= address && address - base < map_len && size > 0 && w.0 == address
                - base && w.1 == (if size <= map_len - w.0 {
                size as int
            } else {
                map_len - w.0
            }) && w.1 > 0 && w.0 + w.1 <= map_len,
            None => address < base || address - base >= map_len || size == 0,
        },
{
    if address < base {
        return None;
    }
    if address - base >= map_len as u64 {
        return None;
    }
    let start = (address - base) as usize;
    let len = if size <= map_len - start {
        size
    } else {
        map_len - start
    };
    if len == 0 {
        return None;
    }
    Some((start, len))
}

/// A memory reader over one contiguous in-memory image.
pub struct BufferMemoryReader {
    /// Virtual address of the first byte of the image
    base: u64,
    /// The image bytes
    content: Vec<u8>,
}

impl BufferMemoryReader {
    /// The virtual address of the first byte.
    pub closed spec fn spec_base(&self) -> u64 {
        self.base
    }

    /// The image bytes.
    pub closed spec fn spec_content(&self) -> Seq<u8> {
        self.content@
    }

    /// Create a reader over `content` mapped at `base`.
    pub fn new(base: u64, content: Vec<u8>) -> (r: Self)
        ensures
            r.spec_base() == base,
            r.spec_content() == content@,
    {
        BufferMemoryReader { base, content }
    }
}

impl ReadMemory for BufferMemoryReader {
    /// The unmapped address that was asked for
    type Error = u64;

    fn at_decode_begin(&mut self) -> (r: Result<(), Self::Error>) {
        Ok(())
    }

    /// Reads from the image; fails with the queried address when it is not
    /// inside the image.
    fn read_memory(&mut self, address: u64, size: usize) -> (r: Result<Vec<u8>, Self::Error>)
        ensures
            *final(self) == *old(self),
            ({
                let base = old(self).spec_base();
                let content = old(self).spec_content();
                let off = address - base;
                if base <= address < base + content.len() {
                    r matches Ok(v) && v@ == content.subrange(
                        off,
                        if off + size <= content.len() {
                            off + size
                        } else {
                            content.len() as int
                        },
                    )
                } else {
                    r == Result::<Vec<u8>, u64>::Err(address)
                }
            }),
    {
        if address < self.base {
            return Err(address);
        }
        let off = address - self.base;
        if off >= self.content.len() as u64 {
            return Err(address);
        }
        let start = off as usize;
        let end = if size <= self.content.len() - start {
            start + size
        } else {
            self.content.len()
        };
        let mut out: Vec<u8> = Vec::new();
        let mut i: usize = start;
        while i < end
            invariant
                start <= i <= end <= self.content@.len(),
                out@ =~= self.content@.subrange(start as int, i as int),
                self == old(self),
            decreases end - i,
        {
            let b = self.content[i];
            out.push(b);
            proof {
                assert(out@ =~= self.content@.subrange(start as int, i + 1));
            }
            i = i + 1;
        }
        proof {
            assert(out@ =~= self.content@.subrange(
                off as int,
                if off as int + size <= self.content@.len() {
                    off as int + size
                } else {
                    self.content@.len() as int
                },
            ));
        }
        Ok(out)
    }
}

} // verus!
