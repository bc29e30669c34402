//! The life of a packet-diversion handle, and the filter text that it is opened with.
use vstd::prelude::*;
use vstd::utf8::encode_utf8;

verus! {

/// The value that stands for no handle.
pub const INVALID_HANDLE_VALUE: isize = -1;

/// The driver's description of where a packet was taken from; opaque here.
pub struct WinDivertAddress {
    pub data: [u8; 80],
}

impl WinDivertAddress {
    /// An address of zero bytes.
    pub fn zeroed() -> (r: WinDivertAddress)
        ensures
            r.data@ == Seq::new(80, |i: int| 0u8),
    {
        let r = WinDivertAddress { data: [0u8; 80] };
        assert(r.data@ =~= Seq::new(80, |i: int| 0u8));
        r
    }
}

/// Why an operation on a handle did not happen.
#[derive(Debug, Clone, Copy, PartialEq, Eq, Structural)]
pub enum DivertError {
    /// The filter text holds a null byte.
    NullInFilter,
    /// The driver failed; the operating system knows why.
    Os,
    /// The handle was closed.
    Closed,
}

impl DivertError {
    /// What the error says for itself; the text of a driver failure is the system's.
    pub fn message(self) -> (r: Option<&'static str>)
        ensures
            match self {
                DivertError::NullInFilter => r matches Some(m) && m@
                    == "filter string contains null byte"@,
                DivertError::Os => r is None,
                DivertError::Closed => r matches Some(m) && m@
                    == "WinDivert handle already closed"@,
            },
    {
        match self {
            DivertError::NullInFilter => Some("filter string contains null byte"),
            DivertError::Os => None,
            DivertError::Closed => Some("WinDivert handle already closed"),
        }
    }
}

/// The filter text as the driver takes it: its bytes, ended by a null byte.
pub fn filter_bytes(filter: &str) -> (r: Result<Vec<u8>, DivertError>)
    ensures
        r is Err <==> encode_utf8(filter@).contains(0u8),
        r matches Ok(bytes) ==> bytes@ == encode_utf8(filter@).push(0u8),
        r matches Err(e) ==> e == DivertError::NullInFilter,
{
    let bytes = filter.as_bytes();
    let mut out: Vec<u8> = Vec::new();
    let mut i: usize = 0;
    while i < bytes.len()
        invariant
            i <= bytes.len(),
            bytes@ == encode_utf8(filter@),
            out@ == bytes@.take(i as int),
            forall|k: int| 0 <= k < i ==> bytes@[k] != 0u8,
        decreases bytes.len() - i,
    {
        if bytes[i] == 0 {
            assert(bytes@.contains(bytes@[i as int]));
            return Err(DivertError::NullInFilter);
        }
        out.push(bytes[i]);
        i = i + 1;
        assert(out@ =~= bytes@.take(i as int));
    }
    assert(bytes@.take(i as int) =~= bytes@);
    out.push(0);
    Ok(out)
}

/// A handle on the driver, open or closed.
#[derive(Debug)]
pub struct DivertHandle {
    handle: isize,
}

impl DivertHandle {
    /// The handle's value while it is open.
    pub closed spec fn raw(&self) -> Option<isize> {
        if self.handle == INVALID_HANDLE_VALUE {
            None
        } else {
            Some(self.handle)
        }
    }

    /// Takes over what the driver gave when it was asked for a handle.
    pub fn open(raw: isize) -> (r: Result<DivertHandle, DivertError>)
        ensures
            raw == INVALID_HANDLE_VALUE ==> (r matches Err(e) && e == DivertError::Os),
            raw != INVALID_HANDLE_VALUE ==> (r matches Ok(h) && h.raw() == Some(raw)),
    {
        if raw == INVALID_HANDLE_VALUE {
            Err(DivertError::Os)
        } else {
            Ok(DivertHandle { handle: raw })
        }
    }

    /// The value to read from or write to.
    pub fn live(&self) -> (r: Result<isize, DivertError>)
        ensures
            match self.raw() {
                Some(raw) => r == Ok::<isize, DivertError>(raw),
                None => r == Err::<isize, DivertError>(DivertError::Closed),
            },
    {
        if self.handle == INVALID_HANDLE_VALUE {
            Err(DivertError::Closed)
        } else {
            Ok(self.handle)
        }
    }

    /// What a read or write gave: the driver's flag for success, and the number of bytes.
    pub fn transferred(ok: i32, len: u32) -> (r: Result<usize, DivertError>)
        ensures
            ok == 0 ==> r == Err::<usize, DivertError>(DivertError::Os),
            ok != 0 ==> r == Ok::<usize, DivertError>(len as usize),
    {
        if ok == 0 {
            Err(DivertError::Os)
        } else {
            Ok(len as usize)
        }
    }

    /// Closes the handle; gives the value to hand back to the driver, the first time only.
    pub fn close(&mut self) -> (r: Option<isize>)
        ensures
            r == old(self).raw(),
            final(self).raw() is None,
    {
        if self.handle == INVALID_HANDLE_VALUE {
            None
        } else {
            let raw = self.handle;
            self.handle = INVALID_HANDLE_VALUE;
            Some(raw)
        }
    }
}

} // verus!
