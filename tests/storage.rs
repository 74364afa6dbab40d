use ppdrive::access::{Asset, AssetSharing, AssetType, PathKind, SECRETS_FILENAME};
use ppdrive::routes::{parse_flag, CreateAssetOptions as AssetRequest};
use ppdrive::storage::{
    asset_disk_path, check_partition_name, check_user_deletion, mb_to_bytes,
    CreateAssetOptions, FolderScan, ScanEntry, ScanStep, StorageAction, UserRole,
};
use ppdrive::AppError;

#[test]
fn megabytes() {
    assert_eq!(mb_to_bytes(0), 0);
    assert_eq!(mb_to_bytes(1), 1_024_000);
    assert_eq!(mb_to_bytes(5), 5_120_000);
}

#[test]
fn disk_paths() {
    assert_eq!(asset_disk_path(&Some("root".into()), "a/b.txt"), "root/a/b.txt");
    assert_eq!(asset_disk_path(&None, "a/b.txt"), "a/b.txt");
}

#[test]
fn plans() {
    let opts = CreateAssetOptions {
        user: 3,
        path: "pics/cat.png".into(),
        asset_type: AssetType::File,
        public: true,
        create_parents: false,
        tmp_file: Some("./tmp/upload".into()),
    };
    let plan = Asset::create(&opts, &Some("u3".into()));
    assert_eq!(plan.record.asset_path, "u3/pics/cat.png");
    assert!(plan.record.public);
    assert_eq!(plan.record.user_id, 3);
    match plan.action {
        StorageAction::CreateFile { path, upload } => {
            assert_eq!(path, "u3/pics/cat.png");
            assert_eq!(upload.as_deref(), Some("./tmp/upload"));
        }
        _ => panic!("expected a file"),
    }
    let opts = CreateAssetOptions {
        user: 4,
        path: "a/b".into(),
        asset_type: AssetType::Folder,
        public: false,
        create_parents: true,
        tmp_file: None,
    };
    let plan = Asset::create(&opts, &None);
    match plan.action {
        StorageAction::CreateDir { path, parents } => {
            assert_eq!(path, "a/b");
            assert!(parents);
        }
        _ => panic!("expected a folder"),
    }
}

#[test]
fn partition_names() {
    assert!(check_partition_name(&None).is_ok());
    assert!(check_partition_name(&Some("photos".into())).is_ok());
    assert!(matches!(
        check_partition_name(&Some(SECRETS_FILENAME.into())),
        Err(AppError::PermissionDenied(_))
    ));
}

#[test]
fn user_deletion() {
    assert!(check_user_deletion(Some(1), 1, UserRole::Basic).is_ok());
    assert!(check_user_deletion(None, 1, UserRole::Basic).is_ok());
    assert!(matches!(check_user_deletion(Some(2), 1, UserRole::Basic), Err(AppError::PermissionDenied(_))));
    assert!(matches!(check_user_deletion(Some(1), 1, UserRole::Admin), Err(AppError::PermissionDenied(_))));
}

#[test]
fn folder_scan() {
    assert!(matches!(FolderScan::start("f.txt", PathKind::File), Err(AppError::InternalServerError(_))));
    assert!(matches!(FolderScan::start("gone", PathKind::Missing), Err(AppError::IOError(_))));
    let mut scan = FolderScan::start("root", PathKind::Directory).unwrap();
    let mut reads = Vec::new();
    let total = loop {
        match scan.next_step() {
            ScanStep::Read(dir) => {
                let entries = match dir.as_str() {
                    "root" => vec![
                        ScanEntry { path: "root/a".into(), kind: PathKind::File, len: 10 },
                        ScanEntry { path: "root/sub".into(), kind: PathKind::Directory, len: 4096 },
                        ScanEntry { path: "root/gone".into(), kind: PathKind::Missing, len: 0 },
                    ],
                    "root/sub" => vec![
                        ScanEntry { path: "root/sub/b".into(), kind: PathKind::File, len: 32 },
                        ScanEntry { path: "root/sub/c".into(), kind: PathKind::File, len: 0 },
                    ],
                    _ => vec![],
                };
                reads.push(dir);
                scan.absorb(&entries);
            }
            ScanStep::Done(t) => break t,
        }
    };
    assert_eq!(total, 42);
    assert_eq!(reads, vec!["root".to_string(), "root/sub".to_string()]);
}

#[test]
fn folder_scan_saturates() {
    let mut scan = FolderScan::start("r", PathKind::Directory).unwrap();
    assert!(matches!(scan.next_step(), ScanStep::Read(_)));
    scan.absorb(&vec![
        ScanEntry { path: "r/a".into(), kind: PathKind::File, len: u64::MAX },
        ScanEntry { path: "r/b".into(), kind: PathKind::File, len: 5 },
    ]);
    assert!(matches!(scan.next_step(), ScanStep::Done(u64::MAX)));
}

#[test]
fn asset_requests() {
    let req = AssetRequest {
        asset_path: "a.txt".into(),
        asset_type: AssetType::File,
        public: None,
        custom_path: None,
        create_parents: Some(true),
        sharing: Some(vec![AssetSharing { asset_id: 0, user_id: 8 }]),
    };
    let opts = req.to_storage(5, Some("tmp".into()));
    assert_eq!(opts.user, 5);
    assert_eq!(opts.path, "a.txt");
    assert!(!opts.public);
    assert!(opts.create_parents);
    assert_eq!(opts.tmp_file.as_deref(), Some("tmp"));
    assert_eq!(req.sharing_rows(77), vec![AssetSharing { asset_id: 77, user_id: 8 }]);
    let public = AssetRequest { public: Some(true), ..req };
    assert!(public.sharing_rows(77).is_empty());
}

#[test]
fn form_flags() {
    assert!(parse_flag("true"));
    assert!(parse_flag("1"));
    assert!(parse_flag("yes"));
    assert!(!parse_flag("True"));
    assert!(!parse_flag("no"));
    assert!(!parse_flag(""));
}
