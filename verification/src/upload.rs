//! Chunked file uploads: the answers about a chunk and about the progress of an
//! upload, and the paging of the upload history.
use vstd::prelude::*;

use crate::progress::is_complete;
use crate::requests::{normalize_paging, paging_of};

verus! {

/// The answer to one uploaded chunk.
pub struct UploadChunkResponse {
    pub message: String,
    pub file_name: String,
    pub chunk_number: usize,
    pub total_chunks: usize,
    pub complete: bool,
}

/// A question about the progress of a chunked upload, by file name.
pub struct ChunkUploadProgressQuery {
    pub file_name: String,
}

/// The progress of a chunked upload.
pub struct ChunkUploadProgressResponse {
    pub file_name: String,
    pub current: u64,
    pub total: u64,
    pub percent: u64,
    pub complete: bool,
}

/// Reports the progress of a chunked upload; it is complete once its position
/// reaches a positive total.
pub fn chunk_progress_response(file_name: String, current: u64, total: u64, percent: u64) -> (r:
    ChunkUploadProgressResponse)
    ensures
        r.file_name == file_name,
        r.current == current && r.total == total && r.percent == percent,
        r.complete == (total > 0 && current >= total),
{
    ChunkUploadProgressResponse {
        file_name,
        current,
        total,
        percent,
        complete: is_complete(total, current),
    }
}

/// The paging of the upload history: page 1 and 20 rows when not asked for, then
/// normalised as every list is.
pub fn history_paging(page: Option<u32>, page_size: Option<u32>) -> (r: (u32, u32))
    ensures
        r == paging_of(
            match page {
                Some(p) => p,
                None => 1,
            },
            match page_size {
                Some(s) => s,
                None => 20,
            },
        ),
{
    let p = match page {
        Some(p) => p,
        None => 1,
    };
    let s = match page_size {
        Some(s) => s,
        None => 20,
    };
    normalize_paging(p, s)
}

} // verus!
