use crate::errors::AppError;
use crate::text::{owned, same_text};
use vstd::prelude::*;
use vstd::string::*;

verus! {

/// The name of the secrets file, which is never an addressable asset.
pub const SECRETS_FILENAME: &'static str = "secrets.ppd";

/// Whether an asset is a regular file or a folder.
#[derive(Clone, Copy, Debug, PartialEq, Eq, Structural)]
pub enum AssetType {
    File,
    Folder,
}

/// What the filesystem holds at a path.
#[derive(Clone, Copy, Debug, PartialEq, Eq, Structural)]
pub enum PathKind {
    Missing,
    File,
    Directory,
}

/// An asset record: its logical path, an optional concealing path that must be used
/// instead of it, its owner, its visibility and its type.
#[derive(Debug)]
pub struct Asset {
    pub id: i32,
    pub asset_path: String,
    pub custom_path: Option<String>,
    pub user_id: i32,
    pub public: bool,
    pub asset_type: AssetType,
}

/// A grant of read access on asset `asset_id` to user `user_id`.
#[derive(Clone, Copy, Debug, PartialEq, Eq, Structural)]
pub struct AssetSharing {
    pub asset_id: i32,
    pub user_id: i32,
}

/// The asset and sharing rows the resolver decides from.
#[derive(Debug)]
pub struct AssetStore {
    pub assets: Vec<Asset>,
    pub sharing: Vec<AssetSharing>,
}

/// A directory entry as enumerated from the filesystem.
#[derive(Debug)]
pub struct DirEntry {
    pub path: String,
    pub name: String,
    pub kind: PathKind,
}

/// A visible child of a listed folder: the path it is fetched by and its label.
#[derive(Debug)]
pub struct ListingEntry {
    pub path: String,
    pub label: String,
}

/// `path` with one trailing separator removed.
pub open spec fn normalize(path: Seq<char>) -> Seq<char> {
    if path.len() > 0 && path.last() == '/' {
        path.drop_last()
    } else {
        path
    }
}

/// The asset answers to `path` (by its path or by its concealing path) with type `ty`.
pub open spec fn answers_to(a: Asset, path: Seq<char>, ty: AssetType) -> bool {
    a.asset_type == ty && (a.asset_path@ == path || (a.custom_path matches Some(c) && c@ == path))
}

/// The position of the first asset that answers to `path` with type `ty`.
pub open spec fn first_match(assets: Seq<Asset>, path: Seq<char>, ty: AssetType) -> Option<int>
    decreases assets.len(),
{
    if assets.len() == 0 {
        None
    } else {
        match first_match(assets.drop_last(), path, ty) {
            Some(i) => Some(i),
            None => if answers_to(assets.last(), path, ty) {
                Some(assets.len() - 1)
            } else {
                None
            },
        }
    }
}

/// The asset has a concealing path and `path` is not it.
pub open spec fn concealed_from(a: Asset, path: Seq<char>) -> bool {
    a.custom_path matches Some(c) && c@ != path
}

/// A sharing row grants user `user` access to asset `asset_id`.
pub open spec fn has_grant(sharing: Seq<AssetSharing>, asset_id: i32, user: i32) -> bool {
    exists|i: int| 0 <= i < sharing.len() && #[trigger] sharing[i] == (AssetSharing { asset_id, user_id: user })
}

/// A public asset is readable by anyone; a private one by its owner and by the users
/// it is shared with.
pub open spec fn may_read(a: Asset, sharing: Seq<AssetSharing>, requester: Option<i32>) -> bool {
    a.public || (requester matches Some(u) && (u == a.user_id || has_grant(sharing, a.id, u)))
}

/// The asset found at `path` with type `ty` is visible to `requester`: it exists, is
/// fetched by its concealing path if it has one, and is readable.
pub open spec fn visible_at(
    assets: Seq<Asset>,
    sharing: Seq<AssetSharing>,
    path: Seq<char>,
    ty: AssetType,
    requester: Option<i32>,
) -> bool {
    match first_match(assets, path, ty) {
        None => false,
        Some(i) => !concealed_from(assets[i], path) && may_read(assets[i], sharing, requester),
    }
}

proof fn lemma_first_match_bounds(assets: Seq<Asset>, path: Seq<char>, ty: AssetType)
    ensures
        first_match(assets, path, ty) matches Some(i) ==> 0 <= i < assets.len() && answers_to(
            assets[i],
            path,
            ty,
        ),
    decreases assets.len(),
{
    if assets.len() > 0 {
        lemma_first_match_bounds(assets.drop_last(), path, ty);
    }
}

proof fn lemma_first_match_prefix(assets: Seq<Asset>, k: int, path: Seq<char>, ty: AssetType)
    requires
        0 <= k <= assets.len(),
        first_match(assets.take(k), path, ty) is Some,
    ensures
        first_match(assets, path, ty) == first_match(assets.take(k), path, ty),
    decreases assets.len(),
{
    if k == assets.len() {
        assert(assets.take(k) =~= assets);
    } else {
        assert(assets.drop_last().take(k) =~= assets.take(k));
        lemma_first_match_prefix(assets.drop_last(), k, path, ty);
    }
}

/// The position of the first asset that answers to `path` with type `ty`.
pub fn find_asset(assets: &Vec<Asset>, path: &str, ty: AssetType) -> (r: Option<usize>)
    ensures
        r matches Some(i) ==> first_match(assets@, path@, ty) == Some(i as int),
        r is None ==> first_match(assets@, path@, ty) is None,
{
    let mut i: usize = 0;
    while i < assets.len()
        invariant
            i <= assets.len(),
            first_match(assets@.take(i as int), path@, ty) is None,
        decreases assets.len() - i,
    {
        let a = &assets[i];
        let by_path = same_text(a.asset_path.as_str(), path);
        let by_custom = match &a.custom_path {
            Some(c) => same_text(c.as_str(), path),
            None => false,
        };
        proof {
            assert(assets@.take(i + 1).drop_last() =~= assets@.take(i as int));
        }
        if a.asset_type == ty && (by_path || by_custom) {
            proof {
                assert(answers_to(assets@.take(i + 1).last(), path@, ty));
                lemma_first_match_prefix(assets@, i + 1, path@, ty);
            }
            return Some(i);
        }
        i = i + 1;
    }
    assert(assets@.take(assets.len() as int) =~= assets@);
    None
}

impl Asset {
    /// The position of the record that answers to `path` with type `asset_type`; none
    /// is a missing record.
    pub fn get_by_path(store: &AssetStore, path: &str, asset_type: AssetType) -> (r: Result<
        usize,
        AppError,
    >)
        ensures
            first_match(store.assets@, path@, asset_type) matches Some(i) ==> (r matches Ok(j) && j
                == i),
            first_match(store.assets@, path@, asset_type) is None ==> (r matches Err(e) && e is NotFound),
    {
        match find_asset(&store.assets, path, asset_type) {
            Some(i) => Ok(i),
            None => Err(AppError::NotFound(owned("error getting the requested resource"))),
        }
    }
}

/// Whether a sharing row grants `user` access to asset `asset_id`.
pub fn shared_with(sharing: &Vec<AssetSharing>, asset_id: i32, user: i32) -> (r: bool)
    ensures
        r == has_grant(sharing@, asset_id, user),
{
    let mut i: usize = 0;
    while i < sharing.len()
        invariant
            i <= sharing.len(),
            forall|k: int| 0 <= k < i ==> sharing@[k] != (AssetSharing { asset_id, user_id: user }),
        decreases sharing.len() - i,
    {
        let g = sharing[i];
        if g.asset_id == asset_id && g.user_id == user {
            assert(sharing@[i as int] == (AssetSharing { asset_id, user_id: user }));
            return true;
        }
        i = i + 1;
    }
    false
}

/// Steps of authorization once the asset is known: a concealed asset fetched by its
/// canonical path is not found; a readable one is granted; anything else is denied.
/// `granted` is whether a sharing row gives the requester access.
pub fn authorize(asset: &Asset, requested: &str, requester: Option<i32>, granted: bool) -> (r:
    Result<(), AppError>)
    ensures
        concealed_from(*asset, requested@) ==> (r matches Err(e) && e is NotFound),
        !concealed_from(*asset, requested@) && (asset.public || (requester matches Some(u) && (u
            == asset.user_id || granted))) ==> r is Ok,
        !concealed_from(*asset, requested@) && !(asset.public || (requester matches Some(u) && (u
            == asset.user_id || granted))) ==> (r matches Err(e) && e is PermissionDenied),
{
    if let Some(c) = &asset.custom_path {
        if !same_text(c.as_str(), requested) {
            return Err(AppError::NotFound(owned("asset not found")));
        }
    }
    if asset.public {
        return Ok(());
    }
    match requester {
        Some(u) => {
            if u == asset.user_id || granted {
                Ok(())
            } else {
                Err(AppError::PermissionDenied(owned("permission denied")))
            }
        },
        None => Err(AppError::PermissionDenied(owned("permission denied"))),
    }
}

/// `path` without one trailing separator.
pub fn normalize_path(path: &str) -> (r: String)
    ensures
        r@ == normalize(path@),
{
    let n = path.unicode_len();
    if n > 0 && path.get_char(n - 1) == '/' {
        owned(path.substring_char(0, n - 1))
    } else {
        owned(path)
    }
}

/// Resolves a request for the asset of type `asset_type` at `path` on behalf of
/// `requester` (none for an anonymous caller), returning the asset's position in the
/// store. The path loses one trailing separator; the secrets file is always denied;
/// an unknown path, or a concealed asset fetched by its canonical path, is not found;
/// an asset that the requester may not read is denied. A success is exactly a path
/// whose asset is visible to the requester.
pub fn resolve(store: &AssetStore, asset_type: AssetType, path: &str, requester: Option<i32>) -> (r:
    Result<usize, AppError>)
    ensures
        ({
            let p = normalize(path@);
            let assets = store.assets@;
            &&& p == SECRETS_FILENAME@ ==> (r matches Err(e) && e is PermissionDenied)
            &&& p != SECRETS_FILENAME@ ==> (r is Ok <==> visible_at(
                assets,
                store.sharing@,
                p,
                asset_type,
                requester,
            ))
            &&& r matches Ok(i) ==> first_match(assets, p, asset_type) == Some(i as int)
            &&& p != SECRETS_FILENAME@ && first_match(assets, p, asset_type) is None ==> (r matches Err(e)
                && e is NotFound)
            &&& p != SECRETS_FILENAME@ ==> (first_match(assets, p, asset_type) matches Some(i)
                ==> ((concealed_from(assets[i], p) ==> (r matches Err(e) && e is NotFound)) && (
            !concealed_from(assets[i], p) && !may_read(assets[i], store.sharing@, requester) ==> (
            r matches Err(e) && e is PermissionDenied))))
        }),
{
    let p = normalize_path(path);
    if same_text(p.as_str(), SECRETS_FILENAME) {
        return Err(AppError::PermissionDenied(owned("access denied")));
    }
    let i = Asset::get_by_path(store, p.as_str(), asset_type)?;
    proof {
        lemma_first_match_bounds(store.assets@, p@, asset_type);
    }
    let a = &store.assets[i];
    let granted = match requester {
        Some(u) => shared_with(&store.sharing, a.id, u),
        None => false,
    };
    authorize(a, p.as_str(), requester, granted)?;
    Ok(i)
}

/// Whether what lies on disk matches the asset's type: a file must be a regular file
/// and a folder a directory; otherwise the record has no backing and is not found.
pub fn check_on_disk(asset_type: AssetType, kind: PathKind) -> (r: Result<(), AppError>)
    ensures
        (asset_type == AssetType::File && kind == PathKind::File) || (asset_type
            == AssetType::Folder && kind == PathKind::Directory) ==> r is Ok,
        !((asset_type == AssetType::File && kind == PathKind::File) || (asset_type
            == AssetType::Folder && kind == PathKind::Directory)) ==> (r matches Err(AppError::NotFound(m))
                && m@ == "asset record found but path does not exist in filesystem"@),
{
    match (asset_type, kind) {
        (AssetType::File, PathKind::File) => Ok(()),
        (AssetType::Folder, PathKind::Directory) => Ok(()),
        _ => Err(AppError::NotFound(owned("asset record found but path does not exist in filesystem"))),
    }
}

/// The asset type a directory entry is looked up as: a regular file as a file,
/// anything else as a folder.
pub open spec fn entry_type(kind: PathKind) -> AssetType {
    if kind == PathKind::File {
        AssetType::File
    } else {
        AssetType::Folder
    }
}

/// The entry is listed for `requester`: its path resolves, under the same rules as a
/// single fetch, to an asset the requester may see.
pub open spec fn entry_visible(
    assets: Seq<Asset>,
    sharing: Seq<AssetSharing>,
    e: DirEntry,
    requester: Option<i32>,
) -> bool {
    visible_at(assets, sharing, e.path@, entry_type(e.kind), requester)
}

/// The visible entries, in enumeration order, as (path, label) pairs.
pub open spec fn visible_listing(
    assets: Seq<Asset>,
    sharing: Seq<AssetSharing>,
    children: Seq<DirEntry>,
    requester: Option<i32>,
) -> Seq<(Seq<char>, Seq<char>)>
    decreases children.len(),
{
    if children.len() == 0 {
        Seq::empty()
    } else {
        let prev = visible_listing(assets, sharing, children.drop_last(), requester);
        let e = children.last();
        if entry_visible(assets, sharing, e, requester) {
            prev.push((e.path@, e.name@))
        } else {
            prev
        }
    }
}

/// A public asset that is not concealed from the path it is fetched by is visible to
/// every requester, anonymous or not.
pub proof fn lemma_public_asset_visible(
    assets: Seq<Asset>,
    sharing: Seq<AssetSharing>,
    path: Seq<char>,
    ty: AssetType,
    i: int,
    requester: Option<i32>,
)
    requires
        first_match(assets, path, ty) == Some(i),
        assets[i].public,
        !concealed_from(assets[i], path),
    ensures
        visible_at(assets, sharing, path, ty, requester),
{
}

/// A private asset is hidden from a requester who neither owns it nor holds a grant
/// on it, and visible to one who holds a grant, when fetched by a path it is not
/// concealed from.
pub proof fn lemma_private_asset_needs_grant(
    assets: Seq<Asset>,
    sharing: Seq<AssetSharing>,
    path: Seq<char>,
    ty: AssetType,
    i: int,
    user: i32,
)
    requires
        first_match(assets, path, ty) == Some(i),
        !assets[i].public,
        user != assets[i].user_id,
        !concealed_from(assets[i], path),
    ensures
        visible_at(assets, sharing, path, ty, Some(user)) == has_grant(sharing, assets[i].id, user),
        !visible_at(assets, sharing, path, ty, None),
{
}

/// An asset with a concealing path is never visible by any other path it answers to,
/// whoever asks; by its concealing path it is visible to whoever may read it.
pub proof fn lemma_concealed_asset(
    assets: Seq<Asset>,
    sharing: Seq<AssetSharing>,
    path: Seq<char>,
    ty: AssetType,
    i: int,
    requester: Option<i32>,
)
    requires
        first_match(assets, path, ty) == Some(i),
        assets[i].custom_path is Some,
    ensures
        assets[i].custom_path->Some_0@ != path ==> !visible_at(assets, sharing, path, ty, requester),
        assets[i].custom_path->Some_0@ == path ==> (visible_at(assets, sharing, path, ty, requester)
            == may_read(assets[i], sharing, requester)),
{
}

/// A folder listing keeps, in order, exactly the children that a direct fetch of
/// their own path (as the type they are listed as) would return to the same
/// requester, each as its path and label.
pub proof fn lemma_listing_is_filter(
    assets: Seq<Asset>,
    sharing: Seq<AssetSharing>,
    children: Seq<DirEntry>,
    requester: Option<i32>,
)
    ensures
        visible_listing(assets, sharing, children, requester) == children.filter(
            |e: DirEntry| entry_visible(assets, sharing, e, requester),
        ).map_values(|e: DirEntry| (e.path@, e.name@)),
    decreases children.len(),
{
    let pred = |e: DirEntry| entry_visible(assets, sharing, e, requester);
    let descr = |e: DirEntry| (e.path@, e.name@);
    reveal(Seq::filter);
    if children.len() == 0 {
        assert(children.filter(pred) =~= Seq::<DirEntry>::empty());
        assert(children.filter(pred).map_values(descr) =~= Seq::<(Seq<char>, Seq<char>)>::empty());
    } else {
        lemma_listing_is_filter(assets, sharing, children.drop_last(), requester);
        let sub = children.drop_last().filter(pred);
        if pred(children.last()) {
            assert(children.filter(pred) == sub.push(children.last()));
            assert(sub.push(children.last()).map_values(descr) =~= sub.map_values(descr).push(
                descr(children.last()),
            ));
        } else {
            assert(children.filter(pred) == sub);
        }
    }
}

pub open spec fn listing_view(v: Seq<ListingEntry>) -> Seq<(Seq<char>, Seq<char>)> {
    v.map_values(|e: ListingEntry| (e.path@, e.label@))
}

/// Whether the entry at `path` with type `ty` is visible to `requester`.
fn visible(store: &AssetStore, path: &str, ty: AssetType, requester: Option<i32>) -> (r: bool)
    ensures
        r == visible_at(store.assets@, store.sharing@, path@, ty, requester),
{
    match find_asset(&store.assets, path, ty) {
        None => false,
        Some(i) => {
            proof {
                lemma_first_match_bounds(store.assets@, path@, ty);
            }
            let a = &store.assets[i];
            let granted = match requester {
                Some(u) => shared_with(&store.sharing, a.id, u),
                None => false,
            };
            authorize(a, path, requester, granted).is_ok()
        },
    }
}

/// The children of a folder that `requester` may see, in the order given. Each child
/// is judged on its own record; a child without a record is left out.
pub fn list_visible(store: &AssetStore, children: &Vec<DirEntry>, requester: Option<i32>) -> (r:
    Vec<ListingEntry>)
    ensures
        listing_view(r@) == visible_listing(store.assets@, store.sharing@, children@, requester),
{
    let mut out: Vec<ListingEntry> = Vec::new();
    let mut i: usize = 0;
    assert(children@.take(0) =~= Seq::<DirEntry>::empty());
    assert(listing_view(out@) =~= Seq::<(Seq<char>, Seq<char>)>::empty());
    while i < children.len()
        invariant
            i <= children.len(),
            listing_view(out@) == visible_listing(
                store.assets@,
                store.sharing@,
                children@.take(i as int),
                requester,
            ),
        decreases children.len() - i,
    {
        let c = &children[i];
        let ty = if c.kind == PathKind::File {
            AssetType::File
        } else {
            AssetType::Folder
        };
        let ghost before = listing_view(out@);
        proof {
            let t = children@.take(i + 1);
            assert(t.drop_last() =~= children@.take(i as int));
            assert(t.last() == *c);
        }
        if visible(store, c.path.as_str(), ty, requester) {
            out.push(ListingEntry { path: owned(c.path.as_str()), label: owned(c.name.as_str()) });
            assert(listing_view(out@) =~= before.push((c.path@, c.name@)));
        }
        i = i + 1;
    }
    assert(children@.take(children.len() as int) =~= children@);
    out
}

} // verus!
