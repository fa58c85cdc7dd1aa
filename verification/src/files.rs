//! Directory listings as the file panel shows them: folders first, then
//! files, each group by name without regard to case. Reading the directory
//! is the host's part; the order is decided here.
use vstd::prelude::*;
use vstd::string::*;
use vstd::utf8::encode_utf8;

verus! {

/// One entry of a directory.
#[derive(Debug, Clone, PartialEq, Eq)]
pub struct FileEntry {
    pub name: String,
    pub path: String,
    pub is_dir: bool,
    pub is_file: bool,
    pub extension: Option<String>,
}

/// Why a file operation failed. `Missing` and `NotDirectory` carry the path
/// asked for, the others the cause as the operating system worded it.
#[derive(Debug)]
pub enum FileError {
    Missing(String),
    NotDirectory(String),
    ReadDirectory(String),
    ReadFile(String),
    WriteFile(String),
    CreateFile(String),
    CreateDirectory(String),
    DeleteDirectory(String),
    DeleteFile(String),
    Rename(String),
}

impl FileError {
    /// The fixed phrase a failure is reported with, before its path or
    /// cause.
    pub open spec fn phrase(self) -> Seq<char> {
        match self {
            FileError::Missing(_) => "Directory does not exist: "@,
            FileError::NotDirectory(_) => "Path is not a directory: "@,
            FileError::ReadDirectory(_) => "Failed to read directory: "@,
            FileError::ReadFile(_) => "Failed to read file: "@,
            FileError::WriteFile(_) => "Failed to write file: "@,
            FileError::CreateFile(_) => "Failed to create file: "@,
            FileError::CreateDirectory(_) => "Failed to create directory: "@,
            FileError::DeleteDirectory(_) => "Failed to delete directory: "@,
            FileError::DeleteFile(_) => "Failed to delete file: "@,
            FileError::Rename(_) => "Failed to rename: "@,
        }
    }

    /// The path or cause the failure carries.
    pub open spec fn detail(self) -> Seq<char> {
        match self {
            FileError::Missing(text) => text@,
            FileError::NotDirectory(text) => text@,
            FileError::ReadDirectory(text) => text@,
            FileError::ReadFile(text) => text@,
            FileError::WriteFile(text) => text@,
            FileError::CreateFile(text) => text@,
            FileError::CreateDirectory(text) => text@,
            FileError::DeleteDirectory(text) => text@,
            FileError::DeleteFile(text) => text@,
            FileError::Rename(text) => text@,
        }
    }

    /// The text this failure is reported with.
    pub fn message(&self) -> (text: String)
        ensures
            text@ == self.phrase() + self.detail(),
    {
        match self {
            FileError::Missing(path) => said("Directory does not exist: ", path),
            FileError::NotDirectory(path) => said("Path is not a directory: ", path),
            FileError::ReadDirectory(cause) => said("Failed to read directory: ", cause),
            FileError::ReadFile(cause) => said("Failed to read file: ", cause),
            FileError::WriteFile(cause) => said("Failed to write file: ", cause),
            FileError::CreateFile(cause) => said("Failed to create file: ", cause),
            FileError::CreateDirectory(cause) => said("Failed to create directory: ", cause),
            FileError::DeleteDirectory(cause) => said("Failed to delete directory: ", cause),
            FileError::DeleteFile(cause) => said("Failed to delete file: ", cause),
            FileError::Rename(cause) => said("Failed to rename: ", cause),
        }
    }

    /// Whether `path` can be listed: it has to exist and to be a directory.
    /// A path that does not exist is reported as missing whatever else is
    /// said of it.
    pub fn check_listable(path: &str, exists: bool, is_dir: bool) -> (verdict: Result<
        (),
        FileError,
    >)
        ensures
            match verdict {
                Ok(_) => exists && is_dir,
                Err(FileError::Missing(missing)) => !exists && missing@ == path@,
                Err(FileError::NotDirectory(other)) => exists && !is_dir && other@ == path@,
                Err(_) => false,
            },
    {
        if !exists {
            Err(FileError::Missing(path.to_owned()))
        } else if !is_dir {
            Err(FileError::NotDirectory(path.to_owned()))
        } else {
            Ok(())
        }
    }
}

fn said(phrase: &str, detail: &String) -> (text: String)
    ensures
        text@ == phrase@ + detail@,
{
    String::from_str(phrase).concat(detail.as_str())
}

impl FileEntry {
    /// The entry for something found in a directory. `kind` says whether it
    /// is a folder and whether it is a regular file; where nothing could be
    /// learned of it, it counts as neither.
    pub fn found(name: String, path: String, kind: Option<(bool, bool)>, extension: Option<
        String,
    >) -> (entry: FileEntry)
        ensures
            entry.name == name,
            entry.path == path,
            entry.extension == extension,
            entry.is_dir == (kind matches Some(k) && k.0),
            entry.is_file == (kind matches Some(k) && k.1),
    {
        let (is_dir, is_file) = match kind {
            Some((is_dir, is_file)) => (is_dir, is_file),
            None => (false, false),
        };
        FileEntry { name, path, is_dir, is_file, extension }
    }
}

/// `text` in lower case, as `str::to_lowercase` gives it.
pub uninterp spec fn lowercased(text: Seq<char>) -> Seq<char>;

/// `str::to_lowercase`: the lower-case form of `text`.
#[verifier::external_body]
fn lowercase(text: &str) -> (lower: String)
    ensures
        lower@ == lowercased(text@),
{
    text.to_lowercase()
}

/// Whether `a` comes strictly before `b` when byte strings are compared
/// byte by byte, a proper prefix coming before what it is a prefix of.
pub open spec fn bytes_before(a: Seq<u8>, b: Seq<u8>) -> bool
    decreases a.len(),
{
    if b.len() == 0 {
        false
    } else if a.len() == 0 {
        true
    } else if a[0] != b[0] {
        a[0] < b[0]
    } else {
        bytes_before(a.drop_first(), b.drop_first())
    }
}

/// What an entry is ordered by: whether it is something other than a
/// folder, and the bytes of its name in lower case.
pub open spec fn entry_key(entry: FileEntry) -> (bool, Seq<u8>) {
    (!entry.is_dir, encode_utf8(lowercased(entry.name@)))
}

/// Whether key `a` comes strictly before key `b`: folders before the rest,
/// then by name.
pub open spec fn key_before(a: (bool, Seq<u8>), b: (bool, Seq<u8>)) -> bool {
    (!a.0 && b.0) || (a.0 == b.0 && bytes_before(a.1, b.1))
}

/// Whether `a` is listed strictly before `b`.
pub open spec fn entry_before(a: FileEntry, b: FileEntry) -> bool {
    key_before(entry_key(a), entry_key(b))
}

/// `after` holds the entries of `before`, entry `j` of `after` being entry
/// `from[j]` of `before`, so that no entry stands behind one that it is
/// listed before, and entries that tie stand as they stood in `before`.
pub open spec fn arranges(before: Seq<FileEntry>, after: Seq<FileEntry>, from: Seq<int>) -> bool {
    &&& from.len() == before.len()
    &&& after.len() == before.len()
    &&& forall|j: int|
        0 <= j < from.len() ==> 0 <= #[trigger] from[j] < before.len() && after[j] == before[from[j]]
    &&& forall|i: int, j: int| 0 <= i < j < from.len() ==> #[trigger] from[i] != #[trigger] from[j]
    &&& forall|i: int, j: int|
        0 <= i < j < after.len() ==> !entry_before(#[trigger] after[j], #[trigger] after[i])
    &&& forall|i: int, j: int|
        0 <= i < j < from.len() && !entry_before(after[i], after[j]) ==> #[trigger] from[i]
            < #[trigger] from[j]
}

/// `after` is `before` in listing order.
pub open spec fn is_listing_of(before: Seq<FileEntry>, after: Seq<FileEntry>) -> bool {
    exists|from: Seq<int>| arranges(before, after, from)
}

/// No byte string comes before itself.
pub proof fn law_bytes_order_is_strict(a: Seq<u8>)
    ensures
        !bytes_before(a, a),
    decreases a.len(),
{
    if a.len() > 0 {
        law_bytes_order_is_strict(a.drop_first());
    }
}

/// Of two different byte strings one comes before the other.
pub proof fn law_bytes_order_is_total(a: Seq<u8>, b: Seq<u8>)
    ensures
        bytes_before(a, b) || bytes_before(b, a) || a == b,
    decreases a.len(),
{
    if a.len() > 0 && b.len() > 0 && a[0] == b[0] {
        law_bytes_order_is_total(a.drop_first(), b.drop_first());
        if a.drop_first() == b.drop_first() {
            assert(a =~= seq![a[0]] + a.drop_first());
            assert(b =~= seq![b[0]] + b.drop_first());
        }
    } else if a.len() == 0 && b.len() == 0 {
        assert(a =~= b);
    }
}

/// What comes before something that comes before a third comes before the
/// third.
pub proof fn law_bytes_order_is_transitive(a: Seq<u8>, b: Seq<u8>, c: Seq<u8>)
    requires
        bytes_before(a, b),
        bytes_before(b, c),
    ensures
        bytes_before(a, c),
    decreases a.len(),
{
    if a.len() > 0 && a[0] == b[0] && b[0] == c[0] {
        law_bytes_order_is_transitive(a.drop_first(), b.drop_first(), c.drop_first());
    }
}

/// The listing order is a strict total order of the keys.
pub proof fn law_listing_order(a: (bool, Seq<u8>), b: (bool, Seq<u8>), c: (bool, Seq<u8>))
    ensures
        !key_before(a, a),
        key_before(a, b) || key_before(b, a) || a == b,
        key_before(a, b) && key_before(b, c) ==> key_before(a, c),
        !key_before(b, a) && !key_before(c, b) ==> !key_before(c, a),
{
    law_bytes_order_is_strict(a.1);
    law_bytes_order_is_total(a.1, b.1);
    law_bytes_order_is_total(b.1, c.1);
    if bytes_before(a.1, b.1) && bytes_before(b.1, c.1) {
        law_bytes_order_is_transitive(a.1, b.1, c.1);
    }
    if bytes_before(c.1, a.1) && bytes_before(a.1, b.1) {
        law_bytes_order_is_transitive(c.1, a.1, b.1);
    }
    if bytes_before(b.1, c.1) && bytes_before(c.1, a.1) {
        law_bytes_order_is_transitive(b.1, c.1, a.1);
    }
}

proof fn lemma_common_prefix(a: Seq<u8>, b: Seq<u8>, n: int)
    requires
        0 <= n <= a.len(),
        n <= b.len(),
        forall|j: int| 0 <= j < n ==> a[j] == b[j],
    ensures
        bytes_before(a, b) == bytes_before(a.skip(n), b.skip(n)),
    decreases n,
{
    if n > 0 {
        lemma_common_prefix(a.drop_first(), b.drop_first(), n - 1);
        assert(a.drop_first().skip(n - 1) =~= a.skip(n));
        assert(b.drop_first().skip(n - 1) =~= b.skip(n));
    } else {
        assert(a.skip(0) =~= a);
        assert(b.skip(0) =~= b);
    }
}

/// Whether `a` comes strictly before `b`, byte by byte.
fn bytes_lt(a: &[u8], b: &[u8]) -> (before: bool)
    ensures
        before == bytes_before(a@, b@),
{
    let mut i: usize = 0;
    while i < a.len() && i < b.len()
        invariant
            i <= a@.len(),
            i <= b@.len(),
            forall|j: int| 0 <= j < i ==> a@[j] == b@[j],
        decreases a@.len() - i,
    {
        if a[i] != b[i] {
            proof {
                lemma_common_prefix(a@, b@, i as int);
            }
            return a[i] < b[i];
        }
        i += 1;
    }
    proof {
        lemma_common_prefix(a@, b@, i as int);
    }
    i < b.len()
}

/// Whether an entry with the first folder flag and lower-case name is
/// listed strictly before one with the second.
fn listed_before(a_is_dir: bool, a_name: &String, b_is_dir: bool, b_name: &String) -> (before:
    bool)
    ensures
        before == key_before(
            (!a_is_dir, encode_utf8(a_name@)),
            (!b_is_dir, encode_utf8(b_name@)),
        ),
{
    if a_is_dir != b_is_dir {
        a_is_dir
    } else {
        bytes_lt(a_name.as_str().as_bytes(), b_name.as_str().as_bytes())
    }
}

/// What an entry is ordered by when the name paired with it stands for its
/// own: whether it is something other than a folder, and the bytes of that
/// name.
pub open spec fn name_key(named: (String, FileEntry)) -> (bool, Seq<u8>) {
    (!named.1.is_dir, encode_utf8(named.0@))
}

/// `after` holds the entries of `before`, entry `j` of `after` being entry
/// `from[j]` of `before`, ordered by the names they are paired with: no
/// entry stands behind one that its key comes before, and entries whose keys
/// tie stand as they stood in `before`.
pub open spec fn arranges_by_name(
    before: Seq<(String, FileEntry)>,
    after: Seq<FileEntry>,
    from: Seq<int>,
) -> bool {
    &&& from.len() == before.len()
    &&& after.len() == before.len()
    &&& forall|j: int|
        0 <= j < from.len() ==> 0 <= #[trigger] from[j] < before.len() && after[j]
            == before[from[j]].1
    &&& forall|i: int, j: int| 0 <= i < j < from.len() ==> #[trigger] from[i] != #[trigger] from[j]
    &&& forall|i: int, j: int|
        0 <= i < j < from.len() ==> !key_before(
            name_key(before[#[trigger] from[j]]),
            name_key(before[#[trigger] from[i]]),
        )
    &&& forall|i: int, j: int|
        0 <= i < j < from.len() && !key_before(
            name_key(before[from[i]]),
            name_key(before[from[j]]),
        ) ==> #[trigger] from[i] < #[trigger] from[j]
}

/// `after` is `before` in the order of the names its entries are paired
/// with.
pub open spec fn is_listing_by_name(before: Seq<(String, FileEntry)>, after: Seq<FileEntry>) -> bool {
    exists|from: Seq<int>| arranges_by_name(before, after, from)
}

/// Puts entries in the order of the names they are paired with: folders
/// first, then the rest, each group by the bytes of the paired name; entries
/// that tie keep the order in which they came. The names are dropped.
///
/// It works by insertion, which suits the sizes of directory listings.
pub fn sort_by_names(named: Vec<(String, FileEntry)>) -> (sorted: Vec<FileEntry>)
    ensures
        is_listing_by_name(named@, sorted@),
{
    let ghost before = named@;
    let mut pending = named;
    let mut sorted: Vec<FileEntry> = Vec::new();
    let mut names: Vec<String> = Vec::new();
    let ghost mut from: Seq<int> = Seq::empty();
    let ghost mut keys: Seq<(bool, Seq<u8>)> = Seq::empty();
    while pending.len() > 0
        invariant
            sorted@.len() + pending@.len() == before.len(),
            pending@ == before.skip(sorted@.len() as int),
            names@.len() == sorted@.len(),
            from.len() == sorted@.len(),
            keys.len() == sorted@.len(),
            forall|j: int|
                0 <= j < sorted@.len() ==> 0 <= #[trigger] from[j] < sorted@.len() && sorted@[j]
                    == before[from[j]].1,
            forall|j: int|
                0 <= j < sorted@.len() ==> #[trigger] keys[j] == name_key(before[from[j]])
                    && keys[j] == (!sorted@[j].is_dir, encode_utf8(names@[j]@)),
            forall|i: int, j: int| 0 <= i < j < from.len() ==> #[trigger] from[i] != #[trigger] from[j],
            forall|i: int, j: int|
                0 <= i < j < keys.len() ==> !key_before(#[trigger] keys[j], #[trigger] keys[i]),
            forall|i: int, j: int|
                0 <= i < j < keys.len() && !key_before(#[trigger] keys[i], #[trigger] keys[j])
                    ==> from[i] < from[j],
        decreases pending@.len(),
    {
        let ghost origin = from;
        let ghost placed = keys;
        let ghost count = sorted@.len() as int;
        let (name, entry) = pending.remove(0);
        let ghost key = (!entry.is_dir, encode_utf8(name@));
        assert(key == name_key(before[count]));
        let mut at: usize = sorted.len();
        while at > 0 && listed_before(entry.is_dir, &name, sorted[at - 1].is_dir, &names[at - 1])
            invariant
                at <= sorted@.len(),
                names@.len() == sorted@.len(),
                keys.len() == sorted@.len(),
                key == (!entry.is_dir, encode_utf8(name@)),
                forall|j: int|
                    0 <= j < sorted@.len() ==> #[trigger] keys[j] == (
                        !sorted@[j].is_dir,
                        encode_utf8(names@[j]@),
                    ),
                forall|j: int| at <= j < keys.len() ==> key_before(key, #[trigger] keys[j]),
            decreases at,
        {
            at -= 1;
        }
        proof {
            assert forall|j: int| 0 <= j < at implies !key_before(key, #[trigger] placed[j]) by {
                if at > 0 {
                    assert(!key_before(key, placed[at - 1]));
                    if j < at - 1 {
                        assert(!key_before(placed[at - 1], placed[j]));
                        law_listing_order(placed[j], placed[at - 1], key);
                    }
                }
            }
            assert forall|j: int| at <= j < placed.len() implies !key_before(
                #[trigger] placed[j],
                key,
            ) by {
                law_listing_order(key, placed[j], key);
            }
        }
        sorted.insert(at, entry);
        names.insert(at, name);
        proof {
            from = origin.insert(at as int, count);
            keys = placed.insert(at as int, key);
            assert forall|j: int| 0 <= j < sorted@.len() implies 0 <= #[trigger] from[j]
                < sorted@.len() && sorted@[j] == before[from[j]].1 by {
                if j < at {
                    assert(from[j] == origin[j]);
                } else if j > at {
                    assert(from[j] == origin[j - 1]);
                }
            }
            assert forall|j: int| 0 <= j < sorted@.len() implies #[trigger] keys[j] == name_key(
                before[from[j]],
            ) && keys[j] == (!sorted@[j].is_dir, encode_utf8(names@[j]@)) by {
                if j < at {
                    assert(from[j] == origin[j] && keys[j] == placed[j]);
                } else if j > at {
                    assert(from[j] == origin[j - 1] && keys[j] == placed[j - 1]);
                }
            }
            assert forall|i: int, j: int| 0 <= i < j < from.len() implies #[trigger] from[i]
                != #[trigger] from[j] by {
                let oi = if i < at { i } else { i - 1 };
                let oj = if j < at { j } else { j - 1 };
                if i != at && j != at {
                    assert(from[i] == origin[oi] && from[j] == origin[oj]);
                } else if i == at {
                    assert(from[j] == origin[oj]);
                } else {
                    assert(from[i] == origin[oi]);
                }
            }
            assert forall|i: int, j: int| 0 <= i < j < keys.len() implies !key_before(
                #[trigger] keys[j],
                #[trigger] keys[i],
            ) by {
                let oi = if i < at { i } else { i - 1 };
                let oj = if j < at { j } else { j - 1 };
                if i != at && j != at {
                    assert(keys[i] == placed[oi] && keys[j] == placed[oj]);
                } else if i == at {
                    assert(keys[j] == placed[oj]);
                } else {
                    assert(keys[i] == placed[oi]);
                }
            }
            assert forall|i: int, j: int|
                0 <= i < j < keys.len() && !key_before(
                    #[trigger] keys[i],
                    #[trigger] keys[j],
                ) implies from[i] < from[j] by {
                let oi = if i < at { i } else { i - 1 };
                let oj = if j < at { j } else { j - 1 };
                if i != at && j != at {
                    assert(keys[i] == placed[oi] && keys[j] == placed[oj]);
                    assert(from[i] == origin[oi] && from[j] == origin[oj]);
                } else if i == at {
                    assert(keys[j] == placed[oj]);
                    assert(key_before(key, placed[oj]));
                } else {
                    assert(from[i] == origin[oi]);
                }
            }
            assert(pending@ =~= before.skip(count + 1));
        }
    }
    proof {
        assert forall|i: int, j: int| 0 <= i < j < from.len() implies !key_before(
            name_key(before[#[trigger] from[j]]),
            name_key(before[#[trigger] from[i]]),
        ) by {
            assert(!key_before(keys[j], keys[i]));
        }
        assert forall|i: int, j: int|
            0 <= i < j < from.len() && !key_before(
                name_key(before[from[i]]),
                name_key(before[from[j]]),
            ) implies #[trigger] from[i] < #[trigger] from[j] by {
            assert(!key_before(keys[i], keys[j]));
        }
        assert(arranges_by_name(before, sorted@, from));
    }
    sorted
}

/// Puts a directory's entries in listing order: folders first, then the
/// rest, each group by lower-case name; entries that tie keep the order in
/// which they came.
pub fn sort_entries(entries: Vec<FileEntry>) -> (sorted: Vec<FileEntry>)
    ensures
        is_listing_of(entries@, sorted@),
{
    let ghost before = entries@;
    let mut rest = entries;
    let mut named: Vec<(String, FileEntry)> = Vec::new();
    while rest.len() > 0
        invariant
            named@.len() + rest@.len() == before.len(),
            rest@ == before.skip(named@.len() as int),
            forall|k: int|
                0 <= k < named@.len() ==> (#[trigger] named@[k]).1 == before[k] && named@[k].0@
                    == lowercased(before[k].name@),
        decreases rest@.len(),
    {
        let ghost count = named@.len() as int;
        let entry = rest.remove(0);
        let name = lowercase(entry.name.as_str());
        named.push((name, entry));
        assert(rest@ =~= before.skip(count + 1));
    }
    let sorted = sort_by_names(named);
    proof {
        let from = choose|from: Seq<int>| arranges_by_name(named@, sorted@, from);
        assert forall|k: int| 0 <= k < named@.len() implies name_key(#[trigger] named@[k])
            == entry_key(before[k]) by {}
        assert forall|j: int| 0 <= j < from.len() implies 0 <= #[trigger] from[j] < before.len()
            && sorted@[j] == before[from[j]] by {
            assert(sorted@[j] == named@[from[j]].1);
        }
        assert forall|i: int, j: int| 0 <= i < j < sorted@.len() implies !entry_before(
            #[trigger] sorted@[j],
            #[trigger] sorted@[i],
        ) by {
            assert(sorted@[j] == named@[from[j]].1 && sorted@[i] == named@[from[i]].1);
            assert(name_key(named@[from[j]]) == entry_key(before[from[j]]));
            assert(name_key(named@[from[i]]) == entry_key(before[from[i]]));
        }
        assert forall|i: int, j: int|
            0 <= i < j < from.len() && !entry_before(sorted@[i], sorted@[j]) implies #[trigger] from[i]
            < #[trigger] from[j] by {
            assert(sorted@[j] == named@[from[j]].1 && sorted@[i] == named@[from[i]].1);
            assert(name_key(named@[from[j]]) == entry_key(before[from[j]]));
            assert(name_key(named@[from[i]]) == entry_key(before[from[i]]));
        }
        assert(arranges(before, sorted@, from));
    }
    sorted
}

} // verus!
