//! The timestamp comparison that decides whether a derived artifact must be regenerated.
use vstd::prelude::*;
use vstd::string::*;
use crate::error::CustomError;

verus! {

/// One file found under a source tree: its path relative to the tree, whether it is a
/// directory, and its last-modified time.
pub struct SourceAsset {
    pub path: String,
    pub is_dir: bool,
    pub mtime: u64,
}

/// Rebuild rule for one source file: the output is missing, or the source is strictly newer.
pub open spec fn stale(source_mtime: u64, output_mtime: Option<u64>) -> bool {
    match output_mtime {
        None => true,
        Some(t) => source_mtime > t,
    }
}

/// Decides whether `output` must be regenerated from a single source file.
/// `output_mtime` is `None` when the output does not exist.
pub fn is_stale(source_mtime: u64, output_mtime: Option<u64>) -> (r: bool)
    ensures
        r == stale(source_mtime, output_mtime),
        r <==> (output_mtime is None || source_mtime > output_mtime->Some_0),
{
    match output_mtime {
        None => true,
        Some(t) => source_mtime > t,
    }
}

/// Rebuild rule for a source tree: the output is missing, or some relevant file is
/// strictly newer than it. `relevant[i]` says whether file `i` passes the stage's filter.
pub open spec fn tree_stale(mtimes: Seq<u64>, relevant: Seq<bool>, output_mtime: Option<u64>) -> bool
    recommends
        mtimes.len() == relevant.len(),
{
    match output_mtime {
        None => true,
        Some(t) => exists|i: int| 0 <= i < mtimes.len() && relevant[i] && #[trigger] mtimes[i] > t,
    }
}

/// Touching the source after the output was written makes the output stale.
pub proof fn lemma_touch_source_makes_stale(output_mtime: u64, touched: u64)
    requires
        touched > output_mtime,
    ensures
        stale(touched, Some(output_mtime)),
{
}

/// Writing the output at or after the source's time makes it fresh again.
pub proof fn lemma_touch_output_makes_fresh(source_mtime: u64, touched: u64)
    requires
        touched >= source_mtime,
    ensures
        !stale(source_mtime, Some(touched)),
{
}

/// A tree with one relevant file is stale exactly when that file alone is.
pub proof fn lemma_single_file_tree(source_mtime: u64, output_mtime: Option<u64>)
    ensures
        tree_stale(seq![source_mtime], seq![true], output_mtime) == stale(
            source_mtime,
            output_mtime,
        ),
{
    let m = seq![source_mtime];
    if output_mtime is Some && stale(source_mtime, output_mtime) {
        assert(m[0] > output_mtime->Some_0);
    }
}

/// The modification times of the given files, in order.
pub open spec fn mtimes_of(entries: Seq<SourceAsset>) -> Seq<u64> {
    Seq::new(entries.len(), |i: int| entries[i].mtime)
}

/// Decides whether an output must be regenerated from a source tree. `relevant[i]`
/// says whether file `i` passes the stage's filter; `output_mtime` is `None` when the
/// output does not exist.
pub fn is_tree_stale(entries: &Vec<SourceAsset>, relevant: &Vec<bool>, output_mtime: Option<u64>) -> (r:
    bool)
    requires
        entries@.len() == relevant@.len(),
    ensures
        r == tree_stale(mtimes_of(entries@), relevant@, output_mtime),
{
    let t = match output_mtime {
        None => {
            return true;
        },
        Some(t) => t,
    };
    let ghost m = mtimes_of(entries@);
    let mut i: usize = 0;
    while i < entries.len()
        invariant
            i <= entries@.len(),
            entries@.len() == relevant@.len(),
            m == mtimes_of(entries@),
            output_mtime == Some(t),
            forall|k: int| 0 <= k < i ==> !(relevant@[k] && #[trigger] m[k] > t),
        decreases entries.len() - i,
    {
        if relevant[i] && entries[i].mtime > t {
            assert(relevant@[i as int] && m[i as int] > t);
            return true;
        }
        i = i + 1;
    }
    false
}

/// Decides whether an output must be regenerated when reading a timestamp may have
/// failed. Each timestamp is given as it was read, or with the reason why it could
/// not be read; the output's is `Ok(None)` when the output does not exist. A
/// timestamp that could not be read is an I/O error, never a fresh output; a
/// missing output is stale whatever became of the source's timestamp.
pub fn is_stale_checked(source_mtime: Result<u64, String>, output_mtime: Result<
    Option<u64>,
    String,
>) -> (r: Result<bool, CustomError>)
    ensures
        output_mtime matches Err(reason) ==> (r matches Err(e) && e is IoError && e.detail()
            == reason@),
        output_mtime matches Ok(None) ==> r == Ok::<bool, CustomError>(true),
        output_mtime matches Ok(Some(t)) ==> (source_mtime matches Err(reason) ==> (r matches Err(
            e,
        ) && e is IoError && e.detail() == reason@)),
        output_mtime matches Ok(Some(t)) ==> (source_mtime matches Ok(s) ==> r == Ok::<
            bool,
            CustomError,
        >(stale(s, Some(t)))),
{
    let out = match output_mtime {
        Err(reason) => {
            return Err(CustomError::IoError(reason));
        },
        Ok(None) => {
            return Ok(true);
        },
        Ok(Some(t)) => t,
    };
    match source_mtime {
        Err(reason) => Err(CustomError::IoError(reason)),
        Ok(s) => Ok(s > out),
    }
}

/// One entry of a walk through a source tree.
#[derive(Debug)]
pub enum Scanned {
    /// The walk failed at this entry, for the given reason.
    Unreadable(String),
    /// A file or a directory, with its last-modified time as it was read, or with
    /// the reason why it could not be read.
    Found { path: String, is_dir: bool, mtime: Result<u64, String> },
}

} // verus!
