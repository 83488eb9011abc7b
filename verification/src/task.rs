//! The task record: one user-visible download, its status and its invariants,
//! together with the naming rules for identifiers, file names and copies.

use vstd::prelude::*;

use crate::strutil::{
    dec_digits, last_index_of, lemma_dec_digits_len, spec_starts_with, starts_with, u64_string,
};

verus! {

/// Lifecycle of a download task.
#[derive(Clone, Copy, Debug, PartialEq, Eq, Structural)]
pub enum DownloadStatus {
    Pending,
    Downloading,
    Paused,
    Completed,
    Cancelled,
    Failed,
}

/// Whether a status is terminal: such a task is never transitioned out of it
/// except by removal and recreation.
pub open spec fn is_terminal(s: DownloadStatus) -> bool {
    s is Completed || s is Cancelled || s is Failed
}

/// One user-visible download.
pub struct DownloadTask {
    pub id: String,
    pub url: String,
    pub file_name: String,
    pub file_path: String,
    pub total_size: u64,
    pub downloaded_size: u64,
    pub status: DownloadStatus,
    /// Integer percentage, `downloaded_size * 100 / total_size` when the total
    /// is known, else 0.
    pub progress: u8,
    pub speed: String,
    pub created_at: u64,
    pub copy_count: u32,
    pub is_copy: bool,
    pub original_id: Option<String>,
}

impl Clone for DownloadTask {
    fn clone(&self) -> (res: Self)
        ensures
            res == *self,
    {
        DownloadTask {
            id: self.id.clone(),
            url: self.url.clone(),
            file_name: self.file_name.clone(),
            file_path: self.file_path.clone(),
            total_size: self.total_size,
            downloaded_size: self.downloaded_size,
            status: self.status,
            progress: self.progress,
            speed: self.speed.clone(),
            created_at: self.created_at,
            copy_count: self.copy_count,
            is_copy: self.is_copy,
            original_id: match &self.original_id {
                Some(s) => Some(s.clone()),
                None => None,
            },
        }
    }
}

/// Well-formedness of a task record: the written bytes never exceed a known
/// total, the percentage is a percentage, and a completed task reports 100.
pub open spec fn task_wf(t: DownloadTask) -> bool {
    &&& (t.total_size > 0 ==> t.downloaded_size <= t.total_size)
    &&& t.progress <= 100
    &&& (t.status is Completed ==> t.progress == 100)
}

/// The percentage the UI sees: `downloaded * 100 / total` when the total is
/// known, else 0.
pub open spec fn spec_percent(downloaded: u64, total: u64) -> int {
    if total > 0 {
        downloaded * 100 / total as int
    } else {
        0
    }
}

/// Computes the progress percentage without overflow.
pub fn progress_percent(downloaded: u64, total: u64) -> (p: u8)
    requires
        total > 0 ==> downloaded <= total,
    ensures
        p == spec_percent(downloaded, total),
        p <= 100,
{
    if total > 0 {
        let wide: u128 = (downloaded as u128) * 100 / (total as u128);
        proof {
            assert(downloaded * 100 / total as int <= 100) by (nonlinear_arith)
                requires
                    0 < total,
                    downloaded <= total,
            ;
        }
        wide as u8
    } else {
        0
    }
}

/// The percentage reaches 100 exactly when every byte of a known total is written.
pub proof fn lemma_percent_100(downloaded: u64, total: u64)
    requires
        total > 0,
        downloaded <= total,
    ensures
        spec_percent(downloaded, total) == 100 <==> downloaded == total,
{
    assert(downloaded * 100 / total as int == 100 <==> downloaded == total) by (nonlinear_arith)
        requires
            0 < total,
            downloaded <= total,
    ;
}

/// Accepted source URLs begin with one of the two HTTP schemes.
pub open spec fn spec_valid_url(u: Seq<char>) -> bool {
    spec_starts_with(u, "http://"@) || spec_starts_with(u, "https://"@)
}

/// Checks the URL scheme; every other string is rejected before any request.
pub fn valid_url(url: &str) -> (r: bool)
    ensures
        r == spec_valid_url(url@),
{
    starts_with(url, "http://") || starts_with(url, "https://")
}

/// What follows the last occurrence of `c`, or all of `s` if `c` is absent.
pub open spec fn after_last(s: Seq<char>, c: char) -> Seq<char>
    decreases s.len(),
{
    if s.len() == 0 {
        s
    } else if s[s.len() - 1] == c {
        Seq::empty()
    } else {
        after_last(s.drop_last(), c) + seq![s[s.len() - 1]]
    }
}

/// What precedes the last occurrence of `c`; meaningful only when `c` occurs.
pub open spec fn before_last(s: Seq<char>, c: char) -> Seq<char>
    decreases s.len(),
{
    if s.len() == 0 {
        s
    } else if s[s.len() - 1] == c {
        s.drop_last()
    } else {
        before_last(s.drop_last(), c)
    }
}

/// Whether `c` occurs in `s`.
pub open spec fn has_char(s: Seq<char>, c: char) -> bool {
    exists|i: int| 0 <= i < s.len() && s[i] == c
}

/// When `i` is the last occurrence of `c`, the split functions cut exactly there.
pub proof fn lemma_split_at_last(s: Seq<char>, c: char, i: int)
    requires
        0 <= i < s.len(),
        s[i] == c,
        forall|j: int| i < j < s.len() ==> s[j] != c,
    ensures
        after_last(s, c) =~= s.subrange(i + 1, s.len() as int),
        before_last(s, c) =~= s.subrange(0, i),
    decreases s.len(),
{
    if i == s.len() - 1 {
        assert(s.drop_last() =~= s.subrange(0, i));
    } else {
        lemma_split_at_last(s.drop_last(), c, i);
        assert(s.drop_last().subrange(i + 1, s.drop_last().len() as int) =~= s.subrange(
            i + 1,
            s.len() - 1,
        ));
        assert(s.drop_last().subrange(0, i) =~= s.subrange(0, i));
        assert(after_last(s, c) =~= s.subrange(i + 1, s.len() as int));
    }
}

/// When `c` is absent, nothing is cut off the tail.
pub proof fn lemma_after_last_absent(s: Seq<char>, c: char)
    requires
        forall|j: int| 0 <= j < s.len() ==> s[j] != c,
    ensures
        after_last(s, c) =~= s,
    decreases s.len(),
{
    if s.len() > 0 {
        lemma_after_last_absent(s.drop_last(), c);
    }
}

/// The file name a URL implies: its last path segment, or `download` when that
/// segment is empty.
pub open spec fn spec_file_name_from_url(u: Seq<char>) -> Seq<char> {
    if after_last(u, '/').len() == 0 {
        "download"@
    } else {
        after_last(u, '/')
    }
}

/// Resolves the target file name from a URL.
pub fn file_name_from_url(url: &str) -> (name: String)
    ensures
        name@ == spec_file_name_from_url(url@),
{
    let len = url.unicode_len();
    match last_index_of(url, '/') {
        Some(i) => {
            proof {
                lemma_split_at_last(url@, '/', i as int);
            }
            if i + 1 == len {
                String::from_str("download")
            } else {
                let tail = url.substring_char(i + 1, len);
                String::from_str(tail)
            }
        },
        None => {
            proof {
                lemma_after_last_absent(url@, '/');
            }
            if len == 0 {
                String::from_str("download")
            } else {
                String::from_str(url)
            }
        },
    }
}

/// The copy naming rule: `_copyK` goes before the extension when the name has
/// one, else at the end.
pub open spec fn spec_copy_name(name: Seq<char>, k: u32) -> Seq<char> {
    if has_char(name, '.') {
        before_last(name, '.') + "_copy"@ + dec_digits(k as nat) + "."@ + after_last(name, '.')
    } else {
        name + "_copy"@ + dec_digits(k as nat)
    }
}

/// Derives the file name of the `k`-th copy of `name`.
pub fn copy_file_name(name: &str, k: u32) -> (r: String)
    ensures
        r@ == spec_copy_name(name@, k),
{
    let len = name.unicode_len();
    match last_index_of(name, '.') {
        Some(i) => {
            proof {
                lemma_split_at_last(name@, '.', i as int);
            }
            let mut r = String::from_str(name.substring_char(0, i));
            r.append("_copy");
            let digits = u64_string(k as u64);
            r.append(digits.as_str());
            r.append(".");
            r.append(name.substring_char(i + 1, len));
            proof {
                assert(r@ =~= spec_copy_name(name@, k));
            }
            r
        },
        None => {
            let mut r = String::from_str(name);
            r.append("_copy");
            let digits = u64_string(k as u64);
            r.append(digits.as_str());
            proof {
                assert(r@ =~= spec_copy_name(name@, k));
            }
            r
        },
    }
}

/// How a directory and a file name combine into a path.
pub open spec fn spec_join_path(dir: Seq<char>, name: Seq<char>) -> Seq<char> {
    if dir.len() == 0 {
        name
    } else if dir[dir.len() - 1] == '/' {
        dir + name
    } else {
        dir + "/"@ + name
    }
}

/// Joins a directory and a file name with a single separator.
pub fn join_path(dir: &str, name: &str) -> (r: String)
    ensures
        r@ == spec_join_path(dir@, name@),
{
    let len = dir.unicode_len();
    if len == 0 {
        String::from_str(name)
    } else if dir.get_char(len - 1) == '/' {
        let mut r = String::from_str(dir);
        r.append(name);
        r
    } else {
        let mut r = String::from_str(dir);
        r.append("/");
        r.append(name);
        proof {
            assert(r@ =~= spec_join_path(dir@, name@));
        }
        r
    }
}

/// The identifier of a fresh task created at `now_millis`.
pub open spec fn spec_task_id(now_millis: u64) -> Seq<char> {
    "download_"@ + dec_digits(now_millis as nat)
}

/// Synthesises the identifier of a fresh task.
pub fn task_id_string(now_millis: u64) -> (r: String)
    ensures
        r@ == spec_task_id(now_millis),
{
    let mut r = String::from_str("download_");
    let digits = u64_string(now_millis);
    r.append(digits.as_str());
    r
}

/// The identifier of the `i`-th copy of a task.
pub open spec fn spec_copy_id(original: Seq<char>, i: u32) -> Seq<char> {
    original + "_copy_"@ + dec_digits(i as nat)
}

/// Synthesises the identifier of the `i`-th copy of `original`.
pub fn copy_id_string(original: &str, i: u32) -> (r: String)
    ensures
        r@ == spec_copy_id(original@, i),
{
    let mut r = String::from_str(original);
    r.append("_copy_");
    let digits = u64_string(i as u64);
    r.append(digits.as_str());
    proof {
        assert(r@ =~= spec_copy_id(original@, i));
    }
    r
}

/// Where the copy of a file at `path` goes: the same directory, under `name`.
pub open spec fn spec_copy_path(path: Seq<char>, name: Seq<char>) -> Seq<char> {
    if has_char(path, '/') {
        before_last(path, '/') + "/"@ + name
    } else {
        name
    }
}

/// Places `name` beside the file at `path`.
pub fn copy_file_path(path: &str, name: &str) -> (r: String)
    ensures
        r@ == spec_copy_path(path@, name@),
{
    match last_index_of(path, '/') {
        Some(i) => {
            proof {
                lemma_split_at_last(path@, '/', i as int);
                assert(has_char(path@, '/'));
            }
            let mut r = String::from_str(path.substring_char(0, i));
            r.append("/");
            r.append(name);
            proof {
                assert(r@ =~= spec_copy_path(path@, name@));
            }
            r
        },
        None => {
            proof {
                assert(!has_char(path@, '/'));
            }
            String::from_str(name)
        },
    }
}

/// A copy identifier is strictly longer than, and so differs from, the
/// identifier it derives from.
pub proof fn lemma_copy_id_ne(original: Seq<char>, k: u32)
    ensures
        spec_copy_id(original, k).len() >= original.len() + 7,
        spec_copy_id(original, k) != original,
{
    reveal_strlit("_copy_");
    lemma_dec_digits_len(k as nat);
}

/// Copies of one task have pairwise distinct identifiers.
pub proof fn lemma_copy_id_injective(original: Seq<char>, k1: u32, k2: u32)
    requires
        spec_copy_id(original, k1) == spec_copy_id(original, k2),
    ensures
        k1 == k2,
{
    reveal_strlit("_copy_");
    let c1 = spec_copy_id(original, k1);
    let c2 = spec_copy_id(original, k2);
    let p = original.len() + 6;
    assert(c1.len() == p + dec_digits(k1 as nat).len());
    assert(c2.len() == p + dec_digits(k2 as nat).len());
    assert(dec_digits(k1 as nat).len() == dec_digits(k2 as nat).len());
    assert forall|i: int| 0 <= i < dec_digits(k1 as nat).len() implies dec_digits(k1 as nat)[i]
        == dec_digits(k2 as nat)[i] by {
        assert(c1[p + i] == dec_digits(k1 as nat)[i]);
        assert(c2[p + i] == dec_digits(k2 as nat)[i]);
    }
    assert(dec_digits(k1 as nat) =~= dec_digits(k2 as nat));
    crate::strutil::lemma_dec_digits_injective(k1 as nat, k2 as nat);
}

/// What the `k`-th copy of `orig`, created at `now`, looks like: same URL and
/// total size, derived identifier, file name and path, fresh progress.
pub open spec fn is_copy_task(t: DownloadTask, orig: DownloadTask, k: u32, now: u64) -> bool {
    &&& t.id@ == spec_copy_id(orig.id@, k)
    &&& t.url@ == orig.url@
    &&& t.file_name@ == spec_copy_name(orig.file_name@, k)
    &&& t.file_path@ == spec_copy_path(orig.file_path@, spec_copy_name(orig.file_name@, k))
    &&& t.total_size == orig.total_size
    &&& t.downloaded_size == 0
    &&& t.status is Pending
    &&& t.progress == 0
    &&& t.speed@ == "0.0 B/s"@
    &&& t.created_at == now
    &&& t.copy_count == 0
    &&& t.is_copy
    &&& match t.original_id {
        Some(oid) => oid@ == orig.id@,
        None => false,
    }
}

/// What a freshly created task for `url` looks like: synthesised identifier,
/// resolved file name and directory, pending with nothing downloaded.
pub open spec fn is_fresh_task(
    t: DownloadTask,
    url: Seq<char>,
    name: Seq<char>,
    dir: Seq<char>,
    now: u64,
) -> bool {
    &&& t.id@ == spec_task_id(now)
    &&& t.url@ == url
    &&& t.file_name@ == name
    &&& t.file_path@ == spec_join_path(dir, name)
    &&& t.total_size == 0
    &&& t.downloaded_size == 0
    &&& t.status is Pending
    &&& t.progress == 0
    &&& t.speed@ == "0.0 B/s"@
    &&& t.created_at == now
    &&& t.copy_count == 0
    &&& !t.is_copy
    &&& t.original_id is None
}

/// The speed string every task starts and ends with.
pub fn zero_speed() -> (r: String)
    ensures
        r@ == "0.0 B/s"@,
{
    String::from_str("0.0 B/s")
}

/// Builds a fresh `Pending` task record.
pub fn new_task(
    id: String,
    url: String,
    file_name: String,
    file_path: String,
    total_size: u64,
    created_at: u64,
    is_copy: bool,
    original_id: Option<String>,
) -> (t: DownloadTask)
    ensures
        t.id == id,
        t.url == url,
        t.file_name == file_name,
        t.file_path == file_path,
        t.total_size == total_size,
        t.downloaded_size == 0,
        t.status is Pending,
        t.progress == 0,
        t.speed@ == "0.0 B/s"@,
        t.created_at == created_at,
        t.copy_count == 0,
        t.is_copy == is_copy,
        t.original_id == original_id,
        task_wf(t),
{
    DownloadTask {
        id,
        url,
        file_name,
        file_path,
        total_size,
        downloaded_size: 0,
        status: DownloadStatus::Pending,
        progress: 0,
        speed: zero_speed(),
        created_at,
        copy_count: 0,
        is_copy,
        original_id,
    }
}

} // verus!
