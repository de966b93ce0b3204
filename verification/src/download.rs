use crate::units::{bytes_text, format_bytes};
use vstd::prelude::*;
use vstd::string::*;

verus! {

/// Where a download stands in its life.
#[derive(Debug)]
pub enum DownloadStatus {
    Pending,
    Downloading,
    Completed,
    Failed(String),
    Cancelled,
}

impl Clone for DownloadStatus {
    fn clone(&self) -> (c: Self)
        ensures
            c == *self,
    {
        match self {
            DownloadStatus::Pending => DownloadStatus::Pending,
            DownloadStatus::Downloading => DownloadStatus::Downloading,
            DownloadStatus::Completed => DownloadStatus::Completed,
            DownloadStatus::Failed(reason) => DownloadStatus::Failed(reason.clone()),
            DownloadStatus::Cancelled => DownloadStatus::Cancelled,
        }
    }
}

impl DownloadStatus {
    /// A status that no message and no key changes any more.
    pub open spec fn is_terminal(self) -> bool {
        self is Completed || self is Failed || self is Cancelled
    }

    /// A status from which the download may still go on.
    pub open spec fn is_active(self) -> bool {
        self is Pending || self is Downloading
    }

    /// Whether the download is over: completed, failed or cancelled.
    pub fn terminal(&self) -> (b: bool)
        ensures
            b == self.is_terminal(),
    {
        match self {
            DownloadStatus::Pending => false,
            DownloadStatus::Downloading => false,
            _ => true,
        }
    }

    /// Whether the download waits for its start.
    pub fn pending(&self) -> (b: bool)
        ensures
            b == (self is Pending),
    {
        match self {
            DownloadStatus::Pending => true,
            _ => false,
        }
    }
}

/// One download of the session's list.
#[derive(Debug)]
pub struct Download {
    /// The identifier of the download: the session gives each download one of
    /// its own, and the messages of its task carry it.
    pub id: u64,
    pub url: String,
    pub filename: String,
    pub dest_path: String,
    pub status: DownloadStatus,
    /// The declared size in bytes; 0 while it is not known.
    pub total_bytes: u64,
    pub downloaded_bytes: u64,
    /// The latest transfer rate, in whole bytes per second.
    pub speed: u64,
}

impl Clone for Download {
    fn clone(&self) -> (c: Self)
        ensures
            c == *self,
    {
        Download {
            id: self.id,
            url: self.url.clone(),
            filename: self.filename.clone(),
            dest_path: self.dest_path.clone(),
            status: self.status.clone(),
            total_bytes: self.total_bytes,
            downloaded_bytes: self.downloaded_bytes,
            speed: self.speed,
        }
    }
}

/// The place of the first download from place `from` on that has the
/// identifier `id`, or the length of the list where there is none.
pub open spec fn place_from(downloads: Seq<Download>, id: u64, from: int) -> int
    decreases downloads.len() - from,
{
    if from < 0 || from >= downloads.len() || downloads[from].id == id {
        from
    } else {
        place_from(downloads, id, from + 1)
    }
}

/// The place of the download with the identifier `id`, or the length of the
/// list where it holds none.
pub open spec fn place_of(downloads: Seq<Download>, id: u64) -> int {
    place_from(downloads, id, 0)
}

/// The identifiers of the list go up from place to place and stay below
/// `bound`: no two downloads have the same one.
pub open spec fn ids_ascend(downloads: Seq<Download>, bound: u64) -> bool {
    &&& forall|i: int, j: int|
        0 <= i < j < downloads.len() ==> (#[trigger] downloads[i]).id < (#[trigger] downloads[j]).id
    &&& forall|i: int| 0 <= i < downloads.len() ==> (#[trigger] downloads[i]).id < bound
}

/// The place that is found for an identifier holds it, and no place before
/// it does.
pub proof fn lemma_place_from(downloads: Seq<Download>, id: u64, from: int)
    requires
        0 <= from <= downloads.len(),
    ensures
        from <= place_from(downloads, id, from) <= downloads.len(),
        place_from(downloads, id, from) < downloads.len() ==> downloads[place_from(
            downloads,
            id,
            from,
        )].id == id,
        forall|k: int| from <= k < place_from(downloads, id, from) ==> downloads[k].id != id,
    decreases downloads.len() - from,
{
    if from < downloads.len() && downloads[from].id != id {
        lemma_place_from(downloads, id, from + 1);
    }
}

/// In a list without repeated identifiers, the place found for the
/// identifier of the download at place `i` is `i`.
pub proof fn lemma_place_of_own(downloads: Seq<Download>, bound: u64, i: int)
    requires
        ids_ascend(downloads, bound),
        0 <= i < downloads.len(),
    ensures
        place_of(downloads, downloads[i].id) == i,
{
    lemma_place_from(downloads, downloads[i].id, 0);
    let p = place_of(downloads, downloads[i].id);
    if p < i {
        assert(downloads[p].id < downloads[i].id);
    } else if p > i {
        assert(downloads[i].id != downloads[i].id);
    }
}

/// The place of the download with the identifier `id`, or the length of the
/// list where it holds none.
pub fn find_download(downloads: &Vec<Download>, id: u64) -> (place: usize)
    ensures
        place == place_of(downloads@, id),
        place <= downloads.len(),
{
    let mut place: usize = 0;
    while place < downloads.len() && downloads[place].id != id
        invariant
            place <= downloads.len(),
            place_from(downloads@, id, 0) == place_from(downloads@, id, place as int),
        decreases downloads.len() - place,
    {
        place += 1;
    }
    place
}

/// Whether the identifiers of the list go up from place to place and stay
/// below `bound`.
pub fn ids_ascending(downloads: &Vec<Download>, bound: u64) -> (b: bool)
    ensures
        b == ids_ascend(downloads@, bound),
{
    let mut i: usize = 0;
    while i < downloads.len()
        invariant
            i <= downloads.len(),
            ids_ascend(downloads@.take(i as int), bound),
        decreases downloads.len() - i,
    {
        if downloads[i].id >= bound {
            return false;
        }
        if i > 0 && downloads[i - 1].id >= downloads[i].id {
            return false;
        }
        proof {
            let now = downloads@.take(i + 1);
            assert forall|a: int, b: int| 0 <= a < b < now.len() implies (#[trigger] now[a]).id < (
            #[trigger] now[b]).id by {
                if b < i {
                    assert(downloads@.take(i as int)[a].id < downloads@.take(i as int)[b].id);
                } else if a < i - 1 {
                    assert(downloads@.take(i as int)[a].id < downloads@.take(i as int)[i - 1].id);
                }
            }
            assert forall|a: int| 0 <= a < now.len() implies (#[trigger] now[a]).id < bound by {
                if a < i {
                    assert(downloads@.take(i as int)[a].id < bound);
                }
            }
        }
        i += 1;
    }
    assert(downloads@.take(downloads.len() as int) =~= downloads@);
    true
}

impl Download {
    /// The transfer rate for reading, such as `1.5 MB/s`.
    pub fn speed_str(&self) -> (s: String)
        ensures
            s@ == bytes_text(self.speed as nat) + "/s"@,
    {
        let mut s = format_bytes(self.speed);
        s.append("/s");
        s
    }
}

} // verus!
