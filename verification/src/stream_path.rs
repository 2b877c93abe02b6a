use vstd::prelude::*;
use vstd::string::{StringExecFns, StringSliceAdditionalSpecFns};

verus! {

/// Where bytes handed over for streaming are written before their path is
/// given to ARCropolis.
pub const TEMP_STREAM_PATH: &'static str = "sd:/temp.bin";

/// The stream path of a file on disk: its path and its size, or nothing when
/// the size could not be read.
pub fn stream_path_of_file(path: String, file_size: Option<u64>) -> (r: Option<(String, usize)>)
    ensures
        r == match file_size {
            Some(size) => Some((path, size as usize)),
            None => None,
        },
{
    match file_size {
        Some(size) => Some((path, size as usize)),
        None => None,
    }
}

/// The stream path of bytes written to `TEMP_STREAM_PATH`: that path and the
/// number of bytes, or nothing when writing them failed.
pub fn stream_path_of_temp_file(len: usize, written: bool) -> (r: Option<(String, usize)>)
    ensures
        r is Some <==> written,
        r matches Some((path, size)) ==> path@ == TEMP_STREAM_PATH@ && size == len,
{
    if written {
        Some((String::from_str(TEMP_STREAM_PATH), len))
    } else {
        None
    }
}

/// Whether a path holds a NUL byte, which a C string cannot carry.
pub fn has_nul_byte(path: &str) -> (r: bool)
    ensures
        r == path.spec_bytes().contains(0u8),
{
    let bytes = path.as_bytes();
    let mut i: usize = 0;
    while i < bytes.len()
        invariant
            i <= bytes@.len(),
            bytes@ == path.spec_bytes(),
            forall|k: int| 0 <= k < i ==> bytes@[k] != 0u8,
        decreases bytes@.len() - i,
    {
        if bytes[i] == 0 {
            assert(bytes@[i as int] == 0u8);
            return true;
        }
        i = i + 1;
    }
    false
}

/// The bytes a stream callback writes back for a path: the path's UTF-8
/// bytes followed by one NUL. A path with a NUL byte in it has no such form.
pub fn c_path_bytes(path: &str) -> (r: Vec<u8>)
    requires
        !path.spec_bytes().contains(0u8),
    ensures
        r@ == path.spec_bytes().push(0u8),
{
    let bytes = path.as_bytes();
    let mut out: Vec<u8> = Vec::new();
    let mut i: usize = 0;
    while i < bytes.len()
        invariant
            i <= bytes@.len(),
            out@ == bytes@.take(i as int),
        decreases bytes@.len() - i,
    {
        out.push(bytes[i]);
        i = i + 1;
        assert(out@ =~= bytes@.take(i as int));
    }
    out.push(0);
    assert(bytes@.take(bytes@.len() as int) =~= bytes@);
    out
}

} // verus!
