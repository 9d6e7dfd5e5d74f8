use dotsync::filesystem::{
    delete, symlink, symlink_delete, symlink_exists, FilesystemError, Operation, Probe,
};

fn probe(is_link: bool, exists: bool, is_file: bool, is_dir: bool) -> Probe {
    Probe { is_link, exists, is_file, is_dir }
}

#[test]
fn delete_removes_a_file_directly() {
    let planned = delete("/home/u/.bashrc", &probe(false, true, true, false));
    assert!(matches!(planned, Ok(Operation::RemoveFile(path)) if path == "/home/u/.bashrc"));
}

#[test]
fn delete_removes_a_directory_with_its_contents() {
    let planned = delete("/home/u/.vim", &probe(false, true, false, true));
    assert!(matches!(planned, Ok(Operation::RemoveDirAll(path)) if path == "/home/u/.vim"));
}

#[test]
fn delete_refuses_what_is_neither_file_nor_directory() {
    let planned = delete("/dev/null", &probe(false, true, false, false));
    assert!(matches!(planned, Err(FilesystemError::InvalidPath(path)) if path == "/dev/null"));
}

#[test]
fn delete_refuses_what_reports_both_kinds() {
    let planned = delete("/odd", &probe(false, true, true, true));
    assert!(matches!(planned, Err(FilesystemError::InvalidPath(path)) if path == "/odd"));
}

#[test]
fn symlink_links_a_file_with_a_file_link() {
    let planned = symlink("/r/bashrc", "/home/u/.bashrc", &probe(false, true, true, false));
    assert!(matches!(
        planned,
        Ok(Operation::LinkFile { source, destination })
            if source == "/r/bashrc" && destination == "/home/u/.bashrc"
    ));
}

#[test]
fn symlink_links_a_directory_with_a_directory_link() {
    let planned = symlink("/r/vim", "/home/u/.vim", &probe(false, true, false, true));
    assert!(matches!(
        planned,
        Ok(Operation::LinkDir { source, destination })
            if source == "/r/vim" && destination == "/home/u/.vim"
    ));
}

#[test]
fn symlink_refuses_a_source_of_another_kind() {
    let planned = symlink("/r/fifo", "/home/u/.fifo", &probe(false, true, false, false));
    assert!(matches!(planned, Err(FilesystemError::InvalidPath(path)) if path == "/r/fifo"));
}

#[test]
fn symlink_delete_unlinks_the_entry() {
    assert!(matches!(symlink_delete("/home/u/.x"), Operation::Unlink(path) if path == "/home/u/.x"));
}

#[test]
fn symlink_exists_counts_a_broken_link() {
    assert!(symlink_exists(&probe(true, false, false, false)));
    assert!(symlink_exists(&probe(true, true, true, false)));
    assert!(!symlink_exists(&probe(false, true, true, false)));
    assert!(!symlink_exists(&probe(false, false, false, false)));
}
