//! Bookkeeping for executable memory. A region is writable until its code has
//! been written; from then on it can be read and executed and is not written
//! again. The system calls themselves are made by the caller, who hands in what
//! they returned.

use crate::text::{cat2, cat5, dec_i64, dec_int, dec, dec_u64, own};
use vstd::prelude::*;

verus! {

/// Page size.
pub const PAGE_SIZE: usize = 4096;

/// Round `n` up to the nearest multiple of [`PAGE_SIZE`].
pub fn page_align_up(n: usize) -> (r: usize)
    requires
        n <= usize::MAX - 4095,
    ensures
        r % 4096 == 0,
        n <= r < n + 4096,
{
    (n + (PAGE_SIZE - 1)) / PAGE_SIZE * PAGE_SIZE
}

/// Error produced when managing executable memory fails.
#[derive(Debug)]
pub struct MemoryError(pub String);

impl MemoryError {
    /// The text of the error.
    pub fn message(&self) -> (r: String)
        ensures
            r@ == "jit memory error: "@ + self.0@,
    {
        cat2("jit memory error: ", self.0.as_str())
    }
}

/// A page-aligned region of executable memory.
#[derive(Debug)]
pub struct ExecutableMemory {
    address: usize,
    len: usize,
    frozen: bool,
}

/// Why code is not taken, if it is not.
pub open spec fn refusal(frozen: bool, len: usize, code: usize) -> Option<Seq<char>> {
    if frozen {
        Some("region already frozen"@)
    } else if code > len {
        Some(
            "code of "@ + dec(code as nat) + " bytes exceeds region of "@ + dec(len as nat)
                + " bytes"@,
        )
    } else {
        None
    }
}

/// What a system call returned: the numbers from -4095 to -1 are errors.
pub open spec fn call_result(ret: u64) -> Result<u64, i64> {
    if ret >= 0xFFFF_FFFF_FFFF_F001 {
        Err((ret - 0x1_0000_0000_0000_0000) as i64)
    } else {
        Ok(ret)
    }
}

/// What a system call returned.
pub fn decode_result(ret: u64) -> (r: Result<u64, i64>)
    ensures
        r == call_result(ret),
{
    if ret >= 0xFFFF_FFFF_FFFF_F001 {
        Err(-((0xFFFF_FFFF_FFFF_FFFF - ret) as i64) - 1)
    } else {
        Ok(ret)
    }
}

impl ExecutableMemory {
    /// The address of the region.
    pub closed spec fn place(&self) -> usize {
        self.address
    }

    /// The size of the region.
    pub closed spec fn size(&self) -> usize {
        self.len
    }

    /// Whether the code has been written.
    pub closed spec fn is_frozen(&self) -> bool {
        self.frozen
    }

    /// A fresh page-aligned region of at least `size` bytes, writable; `mapped`
    /// is where it was mapped, or the error number.
    pub fn allocate(size: usize, mapped: Result<usize, i64>) -> (r: Result<Self, MemoryError>)
        requires
            size <= usize::MAX - 4095,
        ensures
            match mapped {
                Ok(a) => r matches Ok(m) && m.place() == a && m.size() % 4096 == 0 && size
                    <= m.size() < size + 4096 && !m.is_frozen(),
                Err(e) => r matches Err(x) && x.0@ == "mmap failed with errno "@ + dec_int(e as int),
            },
    {
        let len: usize = page_align_up(size);
        match mapped {
            Ok(address) => Ok(ExecutableMemory { address, len, frozen: false }),
            Err(e) => {
                let n: String = dec_i64(e);
                Err(MemoryError(cat2("mmap failed with errno ", n.as_str())))
            },
        }
    }

    /// Whether code of `code` bytes can be written.
    pub fn accepts(&self, code: usize) -> (r: Result<(), MemoryError>)
        ensures
            match refusal(self.is_frozen(), self.size(), code) {
                None => r is Ok,
                Some(why) => r matches Err(x) && x.0@ == why,
            },
    {
        if self.frozen {
            return Err(MemoryError(own("region already frozen")));
        }
        if code > self.len {
            let a: String = dec_u64(code as u64);
            let b: String = dec_u64(self.len as u64);
            return Err(
                MemoryError(
                    cat5("code of ", a.as_str(), " bytes exceeds region of ", b.as_str(), " bytes"),
                ),
            );
        }
        Ok(())
    }

    /// Code of `code` bytes has been written, and the region made executable
    /// unless `protected` gives an error number.
    pub fn finalize(&mut self, code: usize, protected: Result<(), i64>) -> (r: Result<
        (),
        MemoryError,
    >)
        ensures
            final(self).place() == old(self).place(),
            final(self).size() == old(self).size(),
            match refusal(old(self).is_frozen(), old(self).size(), code) {
                Some(why) => r matches Err(x) && x.0@ == why && final(self).is_frozen()
                    == old(self).is_frozen(),
                None => match protected {
                    Ok(_) => r is Ok && final(self).is_frozen(),
                    Err(e) => r matches Err(x) && x.0@ == "mprotect failed with errno "@ + dec_int(
                        e as int,
                    ) && !final(self).is_frozen(),
                },
            },
    {
        self.accepts(code)?;
        match protected {
            Ok(_) => {
                self.frozen = true;
                Ok(())
            },
            Err(e) => {
                let n: String = dec_i64(e);
                Err(MemoryError(cat2("mprotect failed with errno ", n.as_str())))
            },
        }
    }

    /// Address of the start of the region.
    pub fn ptr(&self) -> (r: usize)
        ensures
            r == self.place(),
    {
        self.address
    }

    /// Address of the code.
    pub fn code_ptr(&self) -> (r: usize)
        ensures
            r == self.place(),
    {
        self.address
    }

    /// Byte length of the region (page-aligned).
    pub fn len(&self) -> (r: usize)
        ensures
            r == self.size(),
    {
        self.len
    }
}

/// Code is taken as long as the region is not frozen and the code fits into it.
pub proof fn region_law(frozen: bool, len: usize, code: usize)
    ensures
        refusal(frozen, len, code) is None <==> !frozen && code <= len,
{
}

/// What a system call returned is an error where it is one of the last numbers
/// before zero, read as negative; any other number is the result itself.
pub proof fn return_law(ret: u64)
    ensures
        call_result(ret) matches Ok(v) ==> v == ret,
        call_result(ret) matches Err(e) ==> -4095 <= e < 0 && ret == 0x1_0000_0000_0000_0000 + e,
        call_result(ret) is Err <==> 0x1_0000_0000_0000_0000 - ret <= 4095,
{
}

} // verus!
