use rasterkv::device::{FileId, IoOperation};
use rasterkv::engine::power_model::{Change, DurableModel, Kept};
use rasterkv::types::Generation;

const FILE: FileId = FileId {
    slot: 0,
    generation: Generation(0),
};

fn path(name: &str) -> Vec<u8> {
    name.as_bytes().to_vec()
}

fn file(contents: &str) -> Option<Kept> {
    Some(Kept::File(contents.as_bytes().to_vec()))
}

#[test]
fn the_power_off_model_retains_file_synchronization_and_directory_synchronization_respectively_and_discards_unsynchronized_content()
{
    let mut model = DurableModel::new();
    let nothing = Vec::new;
    model.apply(Change::Open(path("old_name")), FILE, nothing());
    model.apply(Change::SyncFile(FILE), FILE, path("synced"));
    assert_eq!(model.after_power_failure(b"old_name"), None);
    model.apply(Change::SyncDirectory(path("")), FILE, nothing());
    assert_eq!(model.after_power_failure(b"old_name"), file("synced"));
    model.apply(
        Change::Rename(path("old_name"), path("new_name")),
        FILE,
        nothing(),
    );
    assert_eq!(model.after_power_failure(b"old_name"), file("synced"));
    assert_eq!(model.after_power_failure(b"new_name"), None);
    model.apply(Change::SyncDirectory(path("")), FILE, nothing());
    assert_eq!(model.after_power_failure(b"old_name"), None);
    assert_eq!(model.after_power_failure(b"new_name"), file("synced"));
    model.apply(Change::Remove(path("new_name")), FILE, nothing());
    assert_eq!(model.after_power_failure(b"new_name"), file("synced"));
    model.apply(Change::SyncDirectory(path("")), FILE, nothing());
    assert_eq!(model.after_power_failure(b"new_name"), None);
    model.apply(Change::Open(path("Files not synced")), FILE, nothing());
    model.apply(Change::SyncDirectory(path("")), FILE, nothing());
    assert_eq!(model.after_power_failure(b"Files not synced"), file(""));
}

#[test]
fn a_directory_is_kept_only_under_a_directory_that_is_synchronized() {
    let mut model = DurableModel::new();
    model.apply(Change::Directory(path("a")), FILE, Vec::new());
    model.apply(Change::Open(path("a/b")), FILE, Vec::new());
    model.apply(Change::SyncFile(FILE), FILE, path("inner"));
    model.apply(Change::SyncDirectory(path("a")), FILE, Vec::new());
    assert_eq!(model.after_power_failure(b"a"), None);
    assert_eq!(model.after_power_failure(b"a/b"), None);
    model.apply(Change::SyncDirectory(path("")), FILE, Vec::new());
    assert_eq!(model.after_power_failure(b""), Some(Kept::Directory));
    assert_eq!(model.after_power_failure(b"a"), Some(Kept::Directory));
    assert_eq!(model.after_power_failure(b"a/b"), file("inner"));
    assert_eq!(model.after_power_failure(b"a/b/c"), None);
}

#[test]
fn a_change_is_read_off_the_operation() {
    assert_eq!(
        Change::from_operation(&IoOperation::Open {
            path: path("f"),
            create_new: true
        }),
        Change::Open(path("f"))
    );
    assert_eq!(
        Change::from_operation(&IoOperation::CreateDirectory(path("d"))),
        Change::Directory(path("d"))
    );
    assert_eq!(
        Change::from_operation(&IoOperation::SyncFile {
            file: FILE,
            metadata: true
        }),
        Change::SyncFile(FILE)
    );
    assert_eq!(
        Change::from_operation(&IoOperation::SyncDirectory(path("d"))),
        Change::SyncDirectory(path("d"))
    );
    assert_eq!(
        Change::from_operation(&IoOperation::Rename {
            source: path("a"),
            destination: path("b")
        }),
        Change::Rename(path("a"), path("b"))
    );
    assert_eq!(
        Change::from_operation(&IoOperation::RemoveFile(path("f"))),
        Change::Remove(path("f"))
    );
    assert_eq!(
        Change::from_operation(&IoOperation::Close(FILE)),
        Change::Other
    );
}
