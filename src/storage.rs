use crate::access::{Asset, AssetType, PathKind, SECRETS_FILENAME};
use crate::errors::AppError;
use crate::text::{joined, owned, same_text};
use vstd::prelude::*;
use vstd::string::*;

verus! {

/// `value` megabytes (of 1024 * 1000 bytes) in bytes.
pub fn mb_to_bytes(value: usize) -> (r: usize)
    requires
        value * 1024000 <= usize::MAX,
    ensures
        r == value * 1024000,
{
    value * 1024 * 1000
}

/// Where an asset lives on disk: the owner's root folder, if any, then the path.
pub open spec fn disk_path(root_folder: Option<Seq<char>>, path: Seq<char>) -> Seq<char> {
    match root_folder {
        Some(rf) => rf + seq!['/'] + path,
        None => path,
    }
}

pub open spec fn option_view(o: Option<String>) -> Option<Seq<char>> {
    match o {
        Some(s) => Some(s@),
        None => None,
    }
}

/// The physical location of `path` for a user with root folder `root_folder`.
pub fn asset_disk_path(root_folder: &Option<String>, path: &str) -> (r: String)
    ensures
        r@ == disk_path(option_view(*root_folder), path@),
{
    match root_folder {
        Some(rf) => {
            proof {
                reveal_strlit("/");
            }
            let r = joined(joined(owned(rf.as_str()), "/"), path);
            assert("/"@ =~= seq!['/']);
            r
        },
        None => owned(path),
    }
}

/// What creating an asset asks of storage.
#[derive(Debug)]
pub struct CreateAssetOptions {
    /// The asset owner.
    pub user: i32,
    /// Destination path where the asset is created.
    pub path: String,
    /// Whether the asset is a file or a folder.
    pub asset_type: AssetType,
    /// Public assets can be read by everyone, private ones only by permission.
    pub public: bool,
    /// For a folder, whether missing parent folders are created too; without it a
    /// missing parent is an error.
    pub create_parents: bool,
    /// For a file, the temporary file holding the uploaded bytes, if any.
    pub tmp_file: Option<String>,
}

/// The filesystem work that creating an asset takes.
#[derive(Debug)]
pub enum StorageAction {
    /// Create the file at `path`, then move the upload, if any, into it.
    CreateFile { path: String, upload: Option<String> },
    /// Create the directory at `path`, with its missing parents when `parents` holds.
    CreateDir { path: String, parents: bool },
}

/// The asset row recorded once the filesystem work has succeeded.
#[derive(Debug)]
pub struct NewAssetRecord {
    pub asset_path: String,
    pub public: bool,
    pub user_id: i32,
}

/// How to create an asset: the filesystem work, then the row to record.
#[derive(Debug)]
pub struct CreatePlan {
    pub action: StorageAction,
    pub record: NewAssetRecord,
}

impl Asset {
    /// Plans the creation of an asset for an owner whose root folder is `root_folder`:
    /// the asset goes to the owner's disk path; a file takes the upload, a folder the
    /// parent policy; the row records the same path, the visibility and the owner.
    pub fn create(opts: &CreateAssetOptions, root_folder: &Option<String>) -> (r: CreatePlan)
        ensures
            ({
                let target = disk_path(option_view(*root_folder), opts.path@);
                &&& r.record.asset_path@ == target
                &&& r.record.public == opts.public
                &&& r.record.user_id == opts.user
                &&& opts.asset_type == AssetType::File ==> (r.action matches StorageAction::CreateFile {
                    path,
                    upload,
                } && path@ == target && option_view(upload) == option_view(opts.tmp_file))
                &&& opts.asset_type == AssetType::Folder ==> (r.action matches StorageAction::CreateDir {
                    path,
                    parents,
                } && path@ == target && parents == opts.create_parents)
            }),
    {
        let target = asset_disk_path(root_folder, opts.path.as_str());
        let action = match opts.asset_type {
            AssetType::File => {
                let upload = match &opts.tmp_file {
                    Some(t) => Some(owned(t.as_str())),
                    None => None,
                };
                StorageAction::CreateFile { path: owned(target.as_str()), upload }
            },
            AssetType::Folder => StorageAction::CreateDir {
                path: owned(target.as_str()),
                parents: opts.create_parents,
            },
        };
        CreatePlan { action, record: NewAssetRecord { asset_path: target, public: opts.public, user_id: opts.user } }
    }
}

/// A partition may not take the name of the secrets file.
pub fn check_partition_name(partition: &Option<String>) -> (r: Result<(), AppError>)
    ensures
        (partition matches Some(p) && p@ == SECRETS_FILENAME@) ==> (r matches Err(e)
            && e is PermissionDenied),
        !(partition matches Some(p) && p@ == SECRETS_FILENAME@) ==> r is Ok,
{
    if let Some(p) = partition {
        if same_text(p.as_str(), SECRETS_FILENAME) {
            return Err(AppError::PermissionDenied(owned("partition name is not allowed")));
        }
    }
    Ok(())
}

/// A user's role.
#[derive(Clone, Copy, Debug, PartialEq, Eq, Structural)]
pub enum UserRole {
    Admin,
    Basic,
}

/// Whether client `client` may delete a user of role `role` managed by `user_client`:
/// a user managed by another client, or an admin, may not be deleted.
pub fn check_user_deletion(user_client: Option<u64>, client: u64, role: UserRole) -> (r: Result<
    (),
    AppError,
>)
    ensures
        (user_client matches Some(c) && c != client) ==> (r matches Err(e) && e is PermissionDenied),
        role == UserRole::Admin ==> (r matches Err(e) && e is PermissionDenied),
        !(user_client matches Some(c) && c != client) && role != UserRole::Admin ==> r is Ok,
{
    if let Some(c) = user_client {
        if c != client {
            return Err(AppError::PermissionDenied(owned("client cannot delete this user")));
        }
    }
    match role {
        UserRole::Admin => Err(AppError::PermissionDenied(owned("client cannot delete admin"))),
        _ => Ok(()),
    }
}


/// An entry met while scanning a folder: its path, what it is, and its length in bytes.
#[derive(Debug)]
pub struct ScanEntry {
    pub path: String,
    pub kind: PathKind,
    pub len: u64,
}

/// What a folder scan asks for next: the entries of a directory, or nothing more, with
/// the total size found.
#[derive(Debug)]
pub enum ScanStep {
    Read(String),
    Done(u64),
}

/// `a + b`, held at `u64::MAX`.
pub open spec fn sat_add(a: u64, b: u64) -> u64 {
    if a + b > u64::MAX {
        u64::MAX
    } else {
        (a + b) as u64
    }
}

/// `start` plus the lengths of the regular files among `entries`.
pub open spec fn files_total(start: u64, entries: Seq<ScanEntry>) -> u64
    decreases entries.len(),
{
    if entries.len() == 0 {
        start
    } else {
        let t = files_total(start, entries.drop_last());
        if entries.last().kind == PathKind::File {
            sat_add(t, entries.last().len)
        } else {
            t
        }
    }
}

/// The paths of the directories among `entries`, in order.
pub open spec fn dirs_of(entries: Seq<ScanEntry>) -> Seq<Seq<char>>
    decreases entries.len(),
{
    if entries.len() == 0 {
        Seq::empty()
    } else {
        let d = dirs_of(entries.drop_last());
        if entries.last().kind == PathKind::Directory {
            d.push(entries.last().path@)
        } else {
            d
        }
    }
}

/// A depth-first computation of the total size of the regular files under a folder,
/// driven by whoever reads the directories: it names the next directory to read and
/// takes its entries back. Entries that vanished mid-scan are skipped.
#[derive(Debug)]
pub struct FolderScan {
    pending: Vec<String>,
    total: u64,
}

impl FolderScan {
    /// Directories still to read; the last is read next.
    pub closed spec fn pending_dirs(&self) -> Seq<Seq<char>> {
        crate::text::strings_view(self.pending@)
    }

    /// Bytes counted so far.
    pub closed spec fn total_bytes(&self) -> u64 {
        self.total
    }

    /// A scan of the folder `root`, which is of kind `root_kind`. A regular file is not
    /// a folder: that is an internal error; a missing path is an I/O error.
    pub fn start(root: &str, root_kind: PathKind) -> (r: Result<FolderScan, AppError>)
        ensures
            root_kind == PathKind::File ==> (r matches Err(e) && e is InternalServerError),
            root_kind == PathKind::Missing ==> (r matches Err(e) && e is IOError),
            root_kind == PathKind::Directory ==> (r matches Ok(s) && s.pending_dirs() == seq![root@]
                && s.total_bytes() == 0),
    {
        match root_kind {
            PathKind::File => Err(AppError::InternalServerError(owned("provided path is not a folder path"))),
            PathKind::Missing => Err(AppError::IOError(owned("folder does not exist"))),
            PathKind::Directory => {
                let mut pending: Vec<String> = Vec::new();
                pending.push(owned(root));
                let s = FolderScan { pending, total: 0 };
                assert(s.pending_dirs() =~= seq![root@]);
                Ok(s)
            },
        }
    }

    /// The next directory to read, taken off the pending ones, or the total once none
    /// is left.
    pub fn next_step(&mut self) -> (r: ScanStep)
        ensures
            old(self).pending_dirs().len() == 0 ==> (r matches ScanStep::Done(t) && t
                == old(self).total_bytes() && final(self).pending_dirs() == old(self).pending_dirs()),
            old(self).pending_dirs().len() > 0 ==> (r matches ScanStep::Read(p) && p@ == old(
                self,
            ).pending_dirs().last() && final(self).pending_dirs() == old(
                self,
            ).pending_dirs().drop_last()),
            final(self).total_bytes() == old(self).total_bytes(),
    {
        let ghost before = crate::text::strings_view(self.pending@);
        match self.pending.pop() {
            Some(p) => {
                assert(crate::text::strings_view(self.pending@) =~= before.drop_last());
                ScanStep::Read(p)
            },
            None => ScanStep::Done(self.total),
        }
    }

    /// Takes in the entries of a directory just read: regular files add their length
    /// (held at `u64::MAX`), directories join the pending ones, vanished entries are
    /// skipped.
    pub fn absorb(&mut self, entries: &Vec<ScanEntry>)
        ensures
            final(self).total_bytes() == files_total(old(self).total_bytes(), entries@),
            final(self).pending_dirs() == old(self).pending_dirs() + dirs_of(entries@),
    {
        let ghost t0 = self.total;
        let ghost p0 = crate::text::strings_view(self.pending@);
        let mut i: usize = 0;
        assert(entries@.take(0) =~= Seq::<ScanEntry>::empty());
        assert(p0 + dirs_of(entries@.take(0)) =~= p0);
        while i < entries.len()
            invariant
                i <= entries.len(),
                self.total == files_total(t0, entries@.take(i as int)),
                crate::text::strings_view(self.pending@) == p0 + dirs_of(entries@.take(i as int)),
            decreases entries.len() - i,
        {
            let e = &entries[i];
            proof {
                let t = entries@.take(i + 1);
                assert(t.drop_last() =~= entries@.take(i as int));
                assert(t.last() == *e);
            }
            let ghost before = crate::text::strings_view(self.pending@);
            match e.kind {
                PathKind::File => {
                    self.total = self.total.saturating_add(e.len);
                },
                PathKind::Directory => {
                    self.pending.push(owned(e.path.as_str()));
                    assert(crate::text::strings_view(self.pending@) =~= before.push(e.path@));
                    assert(p0 + dirs_of(entries@.take(i + 1)) =~= (p0 + dirs_of(
                        entries@.take(i as int),
                    )).push(e.path@));
                },
                PathKind::Missing => {},
            }
            i = i + 1;
        }
        assert(entries@.take(entries.len() as int) =~= entries@);
    }
}

} // verus!
