//! Getting the server's binary: which release to take, where it goes on disk, and what
//! to do in which order to have it there.

use crate::text::{concat2, concat3, same_text};
use vstd::string::*;
use vstd::prelude::*;

verus! {

/// The name of the server, of its binary, and of the first part of its directories.
pub const SERVER_NAME: &'static str = "clangd";

/// A file that a release offers.
#[derive(Clone, Debug, Default, PartialEq, Eq)]
pub struct GithubReleaseAsset {
    pub name: String,
    pub browser_download_url: String,
}

/// A release: its tag and the files it offers.
#[derive(Clone, Debug, Default, PartialEq, Eq)]
pub struct GithubRelease {
    pub tag_name: String,
    pub assets: Vec<GithubReleaseAsset>,
}

/// A version of the server's binary: the tag of its release and where its archive is.
#[derive(Clone, Debug, Default, PartialEq, Eq)]
pub struct GitHubLspBinaryVersion {
    pub name: String,
    pub url: String,
}

/// A binary to start: its path, its arguments, and its environment where that is not the
/// caller's own.
#[derive(Clone, Debug, Default, PartialEq, Eq)]
pub struct LanguageServerBinary {
    pub path: String,
    pub arguments: Vec<String>,
    pub env: Option<Vec<(String, String)>>,
}

/// Why no binary could be had.
#[derive(Clone, Copy, Debug, PartialEq, Eq, Structural)]
pub enum ProvisionError {
    /// No archive is built for this operating system.
    UnsupportedPlatform,
    /// The release offers no archive of the expected name.
    AssetNotFound,
    /// The download was answered with this status, which is not a success.
    DownloadFailed(u16),
    /// The archive could not be unpacked.
    ExtractionFailed,
}

/// The name that archives carry for the operating system `os`, for those that have
/// archives.
pub open spec fn os_suffix_of(os: Seq<char>) -> Option<Seq<char>> {
    if os == "macos"@ {
        Some("mac"@)
    } else if os == "linux"@ {
        Some("linux"@)
    } else if os == "windows"@ {
        Some("windows"@)
    } else {
        None
    }
}

/// The operating systems that have archives get each a name of its own.
pub proof fn lemma_os_suffix_injective(a: Seq<char>, b: Seq<char>)
    requires
        os_suffix_of(a) is Some,
        os_suffix_of(a) == os_suffix_of(b),
    ensures
        a == b,
{
    reveal_strlit("mac");
    reveal_strlit("linux");
    reveal_strlit("windows");
    assert("mac"@.len() == 3 && "linux"@.len() == 5 && "windows"@.len() == 7);
}

/// Each of the three operating systems has a name, and nothing else has.
pub proof fn lemma_os_suffix_total(os: Seq<char>)
    ensures
        os_suffix_of(os) is Some <==> (os == "macos"@ || os == "linux"@ || os == "windows"@),
{
}

/// The name that archives carry for the operating system `os`.
pub fn os_suffix(os: &str) -> (suffix: Result<&'static str, ProvisionError>)
    ensures
        match suffix {
            Ok(name) => os_suffix_of(os@) == Some(name@),
            Err(error) => os_suffix_of(os@) is None && error == ProvisionError::UnsupportedPlatform,
        },
{
    if same_text(os, "macos") {
        Ok("mac")
    } else if same_text(os, "linux") {
        Ok("linux")
    } else if same_text(os, "windows") {
        Ok("windows")
    } else {
        Err(ProvisionError::UnsupportedPlatform)
    }
}

/// The name of the archive of the release `tag` for the operating system named
/// `suffix`.
pub open spec fn asset_name_of(suffix: Seq<char>, tag: Seq<char>) -> Seq<char> {
    "clangd-"@ + suffix + "-"@ + tag + ".zip"@
}

/// Whether `at` is where the first asset named `name` stands among `assets`.
pub open spec fn is_first_named(assets: Seq<GithubReleaseAsset>, name: Seq<char>, at: int) -> bool {
    &&& 0 <= at < assets.len()
    &&& assets[at].name@ == name
    &&& forall|j: int| 0 <= j < at ==> assets[j].name@ != name
}

/// Where the first asset named `name` stands among `assets`, if there is one.
pub open spec fn first_named(assets: Seq<GithubReleaseAsset>, name: Seq<char>) -> Option<int> {
    if exists|i: int| 0 <= i < assets.len() && assets[i].name@ == name {
        Some(choose|at: int| is_first_named(assets, name, at))
    } else {
        None
    }
}

/// The place of the first asset of a name is the only one that is first.
pub proof fn lemma_first_named_is(assets: Seq<GithubReleaseAsset>, name: Seq<char>, at: int)
    requires
        is_first_named(assets, name, at),
    ensures
        first_named(assets, name) == Some(at),
{
    let chosen = choose|at: int| is_first_named(assets, name, at);
    assert(is_first_named(assets, name, chosen));
    if chosen < at {
        assert(assets[chosen].name@ != name);
    }
    if at < chosen {
        assert(assets[at].name@ != name);
    }
}

/// The version to fetch from `release` on the operating system `os`, as its tag and the
/// address of its archive: the first asset of the release that has the archive's name.
pub open spec fn selected_version(release: GithubRelease, os: Seq<char>) -> Result<
    (Seq<char>, Seq<char>),
    ProvisionError,
> {
    match os_suffix_of(os) {
        None => Err(ProvisionError::UnsupportedPlatform),
        Some(suffix) => match first_named(
            release.assets@,
            asset_name_of(suffix, release.tag_name@),
        ) {
            None => Err(ProvisionError::AssetNotFound),
            Some(at) => Ok((release.tag_name@, release.assets@[at].browser_download_url@)),
        },
    }
}

/// The version to fetch from `release` on the operating system `os`.
pub fn select_version(release: &GithubRelease, os: &str) -> (version: Result<
    GitHubLspBinaryVersion,
    ProvisionError,
>)
    ensures
        match version {
            Ok(version) => selected_version(*release, os@) == Ok::<_, ProvisionError>(
                (version.name@, version.url@),
            ),
            Err(error) => selected_version(*release, os@) == Err::<(Seq<char>, Seq<char>), _>(
                error,
            ),
        },
{
    let suffix = match os_suffix(os) {
        Ok(suffix) => suffix,
        Err(error) => {
            return Err(error);
        },
    };
    let mut asset_name = concat3("clangd-", suffix, "-");
    asset_name.append(release.tag_name.as_str());
    asset_name.append(".zip");
    let mut at: usize = 0;
    while at < release.assets.len()
        invariant
            at <= release.assets.len(),
            os_suffix_of(os@) == Some(suffix@),
            asset_name@ == asset_name_of(suffix@, release.tag_name@),
            forall|j: int| 0 <= j < at ==> release.assets[j].name@ != asset_name@,
        decreases release.assets.len() - at,
    {
        if release.assets[at].name == asset_name {
            let version = GitHubLspBinaryVersion {
                name: release.tag_name.clone(),
                url: release.assets[at].browser_download_url.clone(),
            };
            proof {
                lemma_first_named_is(release.assets@, asset_name@, at as int);
            }
            return Ok(version);
        }
        at += 1;
    }
    Err(ProvisionError::AssetNotFound)
}

/// `dir` with `rest` below it: the two with one `/` between them, which is not added to an
/// empty `dir` nor to one that ends in `/`.
pub open spec fn joined_path(dir: Seq<char>, rest: Seq<char>) -> Seq<char> {
    if dir.len() == 0 || dir.last() == '/' {
        dir + rest
    } else {
        dir + "/"@ + rest
    }
}

/// `dir` with `rest` below it.
pub fn join_path(dir: &str, rest: &str) -> (path: String)
    ensures
        path@ == joined_path(dir@, rest@),
{
    let len = dir.unicode_len();
    if len == 0 || dir.get_char(len - 1) == '/' {
        concat2(dir, rest)
    } else {
        concat3(dir, "/", rest)
    }
}

/// The name of the directory that holds the version `tag`.
pub open spec fn version_dir_name(tag: Seq<char>) -> Seq<char> {
    "clangd_"@ + tag
}

/// Where the binary of the version `tag` stands below the container directory.
pub open spec fn binary_below(tag: Seq<char>) -> Seq<char> {
    version_dir_name(tag) + "/bin/clangd"@
}

/// The binary at `path`, started without arguments in the caller's environment.
pub open spec fn is_plain_binary(binary: LanguageServerBinary, path: Seq<char>) -> bool {
    &&& binary.path@ == path
    &&& binary.arguments@.len() == 0
    &&& binary.env is None
}

/// The binary at `path`, started without arguments in the caller's environment.
pub fn plain_binary(path: String) -> (binary: LanguageServerBinary)
    ensures
        is_plain_binary(binary, path@),
{
    LanguageServerBinary { path, arguments: Vec::new(), env: None }
}

/// The binary that the user has installed, where a search found one at `found`.
pub fn user_installed_binary(found: Option<String>) -> (binary: Option<LanguageServerBinary>)
    ensures
        match found {
            Some(path) => binary matches Some(binary) && is_plain_binary(binary, path@),
            None => binary is None,
        },
{
    match found {
        Some(path) => Some(plain_binary(path)),
        None => None,
    }
}

/// What a container directory holds: the name of an entry, and whether it is a
/// directory.
#[derive(Clone, Debug, Default, PartialEq, Eq)]
pub struct DirectoryEntry {
    pub name: String,
    pub is_dir: bool,
}

/// Where the last directory stands among `entries`, if there is one.
pub open spec fn last_dir(entries: Seq<DirectoryEntry>) -> Option<int>
    decreases entries.len(),
{
    if entries.len() == 0 {
        None
    } else if entries.last().is_dir {
        Some(entries.len() - 1)
    } else {
        last_dir(entries.drop_last())
    }
}

/// What `last_dir` gives is a directory with none after it; it gives nothing only where
/// there is no directory.
pub proof fn lemma_last_dir(entries: Seq<DirectoryEntry>)
    ensures
        match last_dir(entries) {
            Some(at) => 0 <= at < entries.len() && entries[at].is_dir && forall|j: int|
                at < j < entries.len() ==> !entries[j].is_dir,
            None => forall|j: int| 0 <= j < entries.len() ==> !entries[j].is_dir,
        },
    decreases entries.len(),
{
    if entries.len() > 0 && !entries.last().is_dir {
        let shorter = entries.drop_last();
        lemma_last_dir(shorter);
        assert forall|j: int| 0 <= j < shorter.len() implies shorter[j] == entries[j] by {}
        match last_dir(shorter) {
            Some(at) => {
                assert forall|j: int| at < j < entries.len() implies !entries[j].is_dir by {
                    if j < shorter.len() {
                        assert(!shorter[j].is_dir);
                    }
                }
            },
            None => {
                assert forall|j: int| 0 <= j < entries.len() implies !entries[j].is_dir by {
                    if j < shorter.len() {
                        assert(!shorter[j].is_dir);
                    }
                }
            },
        }
    }
}

/// Where the last directory stands among `entries`, if there is one.
fn last_dir_index(entries: &Vec<DirectoryEntry>) -> (found: Option<usize>)
    ensures
        match found {
            Some(at) => last_dir(entries@) == Some(at as int) && at < entries.len(),
            None => last_dir(entries@) is None,
        },
{
    let mut at: usize = entries.len();
    assert(entries@.subrange(0, at as int) =~= entries@);
    while at > 0
        invariant
            at <= entries.len(),
            last_dir(entries@) == last_dir(entries@.subrange(0, at as int)),
        decreases at,
    {
        let ghost longer = entries@.subrange(0, at as int);
        at -= 1;
        assert(longer.drop_last() =~= entries@.subrange(0, at as int));
        if entries[at].is_dir {
            return Some(at);
        }
    }
    None
}

/// Where a binary that was fetched earlier would stand, given what the container
/// directory `container_dir` holds: below the last directory listed. `None` for
/// `listing` says that the directory could not be read.
pub open spec fn cached_candidate(container_dir: Seq<char>, listing: Option<Seq<DirectoryEntry>>)
    -> Option<Seq<char>> {
    match listing {
        Some(entries) => match last_dir(entries) {
            Some(at) => Some(joined_path(container_dir, entries[at].name@ + "/bin/clangd"@)),
            None => None,
        },
        None => None,
    }
}

/// Where a binary that was fetched earlier would stand, given what the container
/// directory holds. There is no such place where the directory could not be read
/// (`listing` is `None`) or holds no directory.
pub fn cached_binary_candidate(container_dir: &str, listing: Option<&Vec<DirectoryEntry>>) -> (path:
    Option<String>)
    ensures
        match path {
            Some(path) => cached_candidate(
                container_dir@,
                match listing {
                    Some(entries) => Some(entries@),
                    None => None,
                },
            ) == Some(path@),
            None => cached_candidate(
                container_dir@,
                match listing {
                    Some(entries) => Some(entries@),
                    None => None,
                },
            ) is None,
        },
        listing is None ==> path is None,
        listing matches Some(entries) ==> (path is Some <==> exists|j: int|
            0 <= j < entries.len() && entries[j].is_dir),
{
    let entries = match listing {
        Some(entries) => entries,
        None => {
            return None;
        },
    };
    proof {
        lemma_last_dir(entries@);
    }
    match last_dir_index(entries) {
        Some(at) => {
            let below = concat2(entries[at].name.as_str(), "/bin/clangd");
            Some(join_path(container_dir, below.as_str()))
        },
        None => None,
    }
}

/// The binary that was fetched earlier, given where it would stand and whether a file
/// is there.
pub fn get_cached_server_binary(candidate: Option<String>, exists: bool) -> (binary: Option<
    LanguageServerBinary,
>)
    ensures
        match candidate {
            Some(path) => if exists {
                binary matches Some(binary) && is_plain_binary(binary, path@)
            } else {
                binary is None
            },
            None => binary is None,
        },
{
    match candidate {
        Some(path) => if exists {
            Some(plain_binary(path))
        } else {
            None
        },
        None => None,
    }
}

/// The names among `entries` that are not `keep`, in order: what is removed from the
/// container directory once the version in `keep` has been unpacked.
pub open spec fn stale_names(entries: Seq<Seq<char>>, keep: Seq<char>) -> Seq<Seq<char>> {
    entries.filter(|name: Seq<char>| name != keep)
}

/// The names among `entries` that are `keep`: what stays in the container directory.
pub open spec fn kept_names(entries: Seq<Seq<char>>, keep: Seq<char>) -> Seq<Seq<char>> {
    entries.filter(|name: Seq<char>| name == keep)
}

/// The names of `entries`, in order.
pub open spec fn names_of(entries: Seq<String>) -> Seq<Seq<char>> {
    Seq::new(entries.len(), |i: int| entries[i]@)
}

/// The names among `entries` that are not `keep`, in order.
pub fn stale_entries(entries: &Vec<String>, keep: &str) -> (stale: Vec<String>)
    ensures
        names_of(stale@) == stale_names(names_of(entries@), keep@),
{
    let mut stale: Vec<String> = Vec::new();
    let mut at: usize = 0;
    proof {
        reveal(Seq::filter);
        assert(names_of(entries@).subrange(0, 0) =~= Seq::<Seq<char>>::empty());
        assert(names_of(stale@) =~= Seq::<Seq<char>>::empty());
    }
    while at < entries.len()
        invariant
            at <= entries.len(),
            names_of(stale@) == stale_names(names_of(entries@).subrange(0, at as int), keep@),
        decreases entries.len() - at,
    {
        let ghost before = names_of(stale@);
        let ghost seen = names_of(entries@).subrange(0, at as int);
        let ghost next = names_of(entries@).subrange(0, at + 1);
        proof {
            reveal(Seq::filter);
            assert(next.drop_last() =~= seen);
            assert(next.last() == entries[at as int]@);
        }
        if !same_text(entries[at].as_str(), keep) {
            stale.push(entries[at].clone());
            assert(names_of(stale@) =~= before.push(entries[at as int]@));
        } else {
            assert(names_of(stale@) =~= before);
        }
        at += 1;
    }
    assert(names_of(entries@).subrange(0, entries.len() as int) =~= names_of(entries@));
    stale
}

/// Of a directory that holds `keep` and no name twice, exactly `keep` stays.
pub proof fn lemma_one_version_remains(entries: Seq<Seq<char>>, keep: Seq<char>)
    requires
        entries.no_duplicates(),
        entries.contains(keep),
    ensures
        kept_names(entries, keep) == seq![keep],
        forall|name: Seq<char>|
            entries.contains(name) ==> (stale_names(entries, keep).contains(name) <==> name
                != keep),
    decreases entries.len(),
{
    reveal(Seq::filter);
    lemma_stale_names(entries, keep);
    let last = entries.last();
    let shorter = entries.drop_last();
    assert forall|i: int, j: int| 0 <= i < shorter.len() && 0 <= j < shorter.len() && i
        != j implies shorter[i] != shorter[j] by {
        assert(shorter[i] == entries[i] && shorter[j] == entries[j]);
    }
    if last == keep {
        assert(!shorter.contains(keep)) by {
            if shorter.contains(keep) {
                let i = choose|i: int| 0 <= i < shorter.len() && shorter[i] == keep;
                assert(entries[i] == entries[entries.len() - 1]);
            }
        }
        lemma_none_kept(shorter, keep);
        assert(kept_names(entries, keep) =~= seq![keep]);
    } else {
        assert(shorter.contains(keep)) by {
            let i = choose|i: int| 0 <= i < entries.len() && entries[i] == keep;
            assert(shorter[i] == keep);
        }
        lemma_one_version_remains(shorter, keep);
    }
}

/// Of a directory that does not hold `keep`, nothing stays.
proof fn lemma_none_kept(entries: Seq<Seq<char>>, keep: Seq<char>)
    requires
        !entries.contains(keep),
    ensures
        kept_names(entries, keep) == Seq::<Seq<char>>::empty(),
    decreases entries.len(),
{
    reveal(Seq::filter);
    if entries.len() > 0 {
        let shorter = entries.drop_last();
        assert(entries.last() == entries[entries.len() - 1]);
        assert(!shorter.contains(keep)) by {
            if shorter.contains(keep) {
                let i = choose|i: int| 0 <= i < shorter.len() && shorter[i] == keep;
                assert(entries[i] == keep);
            }
        }
        lemma_none_kept(shorter, keep);
    }
}

/// A name of the directory is removed exactly if it is not `keep`.
pub proof fn lemma_stale_names(entries: Seq<Seq<char>>, keep: Seq<char>)
    ensures
        forall|name: Seq<char>|
            entries.contains(name) ==> (#[trigger] stale_names(entries, keep).contains(name)
                <==> name != keep),
        !stale_names(entries, keep).contains(keep),
    decreases entries.len(),
{
    reveal(Seq::filter);
    if entries.len() > 0 {
        let shorter = entries.drop_last();
        let last = entries.last();
        lemma_stale_names(shorter, keep);
        let stale = stale_names(entries, keep);
        let stale_shorter = stale_names(shorter, keep);
        if last != keep {
            assert(stale == stale_shorter.push(last));
            assert(stale.last() == last);
        } else {
            assert(stale == stale_shorter);
        }
        assert forall|name: Seq<char>| entries.contains(name) implies (stale.contains(name) <==> name
            != keep) by {
            let i = choose|i: int| 0 <= i < entries.len() && entries[i] == name;
            if i < shorter.len() {
                assert(shorter[i] == name);
            }
            if stale.contains(name) {
                let k = choose|k: int| 0 <= k < stale.len() && stale[k] == name;
                if last != keep && k == stale.len() - 1 {
                } else {
                    assert(stale_shorter[k] == name);
                }
            }
            if name != keep {
                if i < shorter.len() {
                    assert(shorter.contains(name));
                    assert(stale_shorter.contains(name));
                    let k = choose|k: int| 0 <= k < stale_shorter.len() && stale_shorter[k] == name;
                    assert(stale[k] == name);
                } else {
                    assert(stale[stale.len() - 1] == name);
                }
            }
        }
        assert(!stale.contains(keep)) by {
            if stale.contains(keep) {
                let k = choose|k: int| 0 <= k < stale.len() && stale[k] == keep;
                if last != keep && k == stale.len() - 1 {
                } else {
                    assert(stale_shorter[k] == keep);
                }
            }
        }
    }
}

} // verus!
