use crate::access::{AssetSharing, AssetType};
use crate::storage::UserRole;
use crate::text::{owned, same_text};
use vstd::prelude::*;
use vstd::string::*;

verus! {

/// A client's request to register a user.
#[derive(Debug)]
pub struct CreateUserOptions {
    pub partition: Option<String>,
    pub partition_size: Option<i64>,
    pub role: UserRole,
}

/// A client's request to log a user in.
#[derive(Debug)]
pub struct LoginCredentials {
    pub id: String,
    pub password: Option<String>,
    pub exp: Option<i64>,
}

/// A session token with its expiry.
#[derive(Debug)]
pub struct LoginToken {
    pub token: String,
    pub exp: i64,
}

/// A request to create an asset.
#[derive(Debug)]
pub struct CreateAssetOptions {
    /// Destination path where the asset is created.
    pub asset_path: String,
    /// Whether the asset is a file or a folder.
    pub asset_type: AssetType,
    /// Public assets can be read by everyone, private ones only by permission. Private
    /// when not given.
    pub public: Option<bool>,
    /// A path that conceals the asset's own: once set, the asset is fetched by it only.
    pub custom_path: Option<String>,
    /// For a folder, whether missing parents are created too. Not when not given.
    pub create_parents: Option<bool>,
    /// Users to share the asset with; a public asset needs no sharing.
    pub sharing: Option<Vec<AssetSharing>>,
}

pub open spec fn flag_or_false(o: Option<bool>) -> bool {
    match o {
        Some(b) => b,
        None => false,
    }
}

impl CreateAssetOptions {
    /// Whether the asset is to be public.
    pub fn is_public(&self) -> (r: bool)
        ensures
            r == flag_or_false(self.public),
    {
        match self.public {
            Some(b) => b,
            None => false,
        }
    }

    /// The storage request for owner `user`, with the uploaded bytes, if any, in
    /// `tmp_file`.
    pub fn to_storage(&self, user: i32, tmp_file: Option<String>) -> (r:
        crate::storage::CreateAssetOptions)
        ensures
            r.user == user,
            r.path@ == self.asset_path@,
            r.asset_type == self.asset_type,
            r.public == flag_or_false(self.public),
            r.create_parents == flag_or_false(self.create_parents),
            r.tmp_file == tmp_file,
    {
        crate::storage::CreateAssetOptions {
            user,
            path: owned(self.asset_path.as_str()),
            asset_type: self.asset_type,
            public: self.is_public(),
            create_parents: match self.create_parents {
                Some(b) => b,
                None => false,
            },
            tmp_file,
        }
    }

    /// The sharing rows to record for the new asset `asset_id`: the requested grants,
    /// bound to that asset, or none for a public asset.
    pub fn sharing_rows(&self, asset_id: i32) -> (r: Vec<AssetSharing>)
        ensures
            flag_or_false(self.public) || self.sharing is None ==> r@.len() == 0,
            !flag_or_false(self.public) ==> (self.sharing matches Some(g) ==> (r@.len() == g@.len()
                && forall|i: int|
                0 <= i < g@.len() ==> #[trigger] r@[i] == (AssetSharing {
                    asset_id,
                    user_id: g@[i].user_id,
                }))),
    {
        let mut out: Vec<AssetSharing> = Vec::new();
        if self.is_public() {
            return out;
        }
        match &self.sharing {
            None => out,
            Some(g) => {
                let mut i: usize = 0;
                while i < g.len()
                    invariant
                        i <= g.len(),
                        out@.len() == i,
                        forall|k: int|
                            0 <= k < i ==> #[trigger] out@[k] == (AssetSharing {
                                asset_id,
                                user_id: g@[k].user_id,
                            }),
                    decreases g.len() - i,
                {
                    out.push(AssetSharing { asset_id, user_id: g[i].user_id });
                    i = i + 1;
                }
                out
            },
        }
    }
}

/// A form flag is set by `true`, `1` or `yes`.
pub fn parse_flag(value: &str) -> (r: bool)
    ensures
        r == (value@ == "true"@ || value@ == "1"@ || value@ == "yes"@),
{
    same_text(value, "true") || same_text(value, "1") || same_text(value, "yes")
}

} // verus!
