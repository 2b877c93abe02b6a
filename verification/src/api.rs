use vstd::prelude::*;

verus! {

/// The filesystem events that ARCropolis reports to registered callbacks.
#[derive(Debug, Clone, Copy, PartialEq, Eq, Structural)]
pub enum Event {
    ArcFilesystemMounted,
    ModFilesystemMounted,
}

/// What loading an original file gives back: the number of bytes written into
/// the buffer when the load succeeded, nothing otherwise.
pub fn loaded_file_size(success: bool, out_size: usize) -> (r: Option<usize>)
    ensures
        r == (if success {
            Some(out_size)
        } else {
            None
        }),
{
    if success {
        Some(out_size)
    } else {
        None
    }
}

} // verus!
