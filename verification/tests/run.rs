use std::collections::BTreeMap;

use dotsync::batch::{run, Batch};
use dotsync::error::SyncError;
use dotsync::filesystem::{FilesystemError, Operation, Probe, Reply};
use dotsync::mapping::{Mapping, Pair};
use dotsync::reconcile::{Reconciler, Stage, Step};

#[derive(Clone, Debug, PartialEq)]
enum Node {
    File,
    Dir,
    Other,
    Link { target: String, dir: bool },
}

/// A file tree in memory, which answers operations as a disk would.
#[derive(Clone, Debug, PartialEq)]
struct Tree {
    nodes: BTreeMap<String, Node>,
    log: Vec<String>,
}

fn within(path: &str, root: &str) -> bool {
    path == root
        || (path.len() > root.len() && path.starts_with(root) && path.as_bytes()[root.len()] == b'/')
}

fn link(target: &str, dir: bool) -> Node {
    Node::Link { target: target.to_string(), dir }
}

impl Tree {
    fn of(nodes: &[(&str, Node)]) -> Tree {
        Tree {
            nodes: nodes.iter().map(|(path, node)| (path.to_string(), node.clone())).collect(),
            log: Vec::new(),
        }
    }

    fn at(&self, path: &str) -> Option<Node> {
        self.nodes.get(path).cloned()
    }

    fn reach(&self, path: &str) -> Option<Node> {
        let mut current: String = path.to_string();
        let mut hops: u32 = 40;
        loop {
            match self.nodes.get(&current) {
                None => return None,
                Some(Node::Link { target, .. }) => {
                    if hops == 0 {
                        return None;
                    }
                    hops -= 1;
                    current = target.clone();
                }
                Some(node) => return Some(node.clone()),
            }
        }
    }

    fn look(&self, path: &str) -> Probe {
        let found = self.reach(path);
        Probe {
            is_link: matches!(self.nodes.get(path), Some(Node::Link { .. })),
            exists: found.is_some(),
            is_file: found == Some(Node::File),
            is_dir: found == Some(Node::Dir),
        }
    }

    fn perform(&mut self, operation: &Operation) -> Reply {
        self.log.push(format!("{:?}", operation));
        match operation {
            Operation::Inspect(path) => return Reply::Probed(self.look(path)),
            Operation::Unlink(path) => {
                assert!(matches!(self.nodes.get(path), Some(Node::Link { .. })));
                self.nodes.remove(path);
            }
            Operation::RemoveFile(path) => {
                assert_eq!(self.nodes.get(path), Some(&Node::File));
                self.nodes.remove(path);
            }
            Operation::RemoveDirAll(path) => {
                assert_eq!(self.nodes.get(path), Some(&Node::Dir));
                self.nodes.retain(|other, _| !within(other, path));
            }
            Operation::LinkFile { source, destination } => {
                assert!(!self.nodes.contains_key(destination));
                self.nodes.insert(destination.clone(), link(source, false));
            }
            Operation::LinkDir { source, destination } => {
                assert!(!self.nodes.contains_key(destination));
                self.nodes.insert(destination.clone(), link(source, true));
            }
        }
        Reply::Performed(Ok(()))
    }

    fn reconcile(&mut self, source: &str, destination: &str) -> Result<(), SyncError> {
        let (mut reconciler, mut step) = Reconciler::new(source, destination);
        loop {
            match step {
                Step::Done(result) => {
                    assert_eq!(reconciler.stage(), Stage::Finished);
                    return result;
                }
                Step::Perform(operation) => {
                    let reply = self.perform(&operation);
                    assert!(reconciler.accepts(&reply));
                    step = reconciler.advance(reply);
                }
            }
        }
    }

    fn drive(&mut self, begun: (Batch, Step)) -> Result<(), SyncError> {
        let (mut batch, mut step) = begun;
        loop {
            match step {
                Step::Done(result) => {
                    assert_eq!(batch.stage(), Stage::Finished);
                    return result;
                }
                Step::Perform(operation) => {
                    let reply = self.perform(&operation);
                    assert!(batch.accepts(&reply));
                    step = batch.advance(reply);
                }
            }
        }
    }

    fn run(&mut self, pairs: &[(&str, &str)]) -> Result<(), SyncError> {
        let pairs: Vec<Pair> = pairs
            .iter()
            .map(|(source, destination)| Pair {
                source: source.to_string(),
                destination: destination.to_string(),
            })
            .collect();
        self.drive(Batch::new(pairs))
    }
}

fn repository() -> Vec<(&'static str, Node)> {
    vec![("/r", Node::Dir), ("/r/bashrc", Node::File), ("/r/vim", Node::Dir), ("/r/vim/init", Node::File)]
}

fn with(extra: &[(&str, Node)]) -> Tree {
    let mut nodes = repository();
    for (path, node) in extra {
        nodes.push((path, node.clone()));
    }
    let owned: Vec<(&str, Node)> = nodes.iter().map(|(path, node)| (*path, node.clone())).collect();
    Tree::of(&owned)
}

#[test]
fn reconcile_links_an_absent_destination() {
    let mut tree = with(&[]);
    assert!(tree.reconcile("/r/bashrc", "/h/.bashrc").is_ok());
    assert_eq!(tree.at("/h/.bashrc"), Some(link("/r/bashrc", false)));
    assert_eq!(
        tree.log,
        vec![
            "Inspect(\"/h/.bashrc\")".to_string(),
            "Inspect(\"/r/bashrc\")".to_string(),
            "LinkFile { source: \"/r/bashrc\", destination: \"/h/.bashrc\" }".to_string(),
        ]
    );
}

#[test]
fn reconcile_replaces_a_regular_file() {
    let mut tree = with(&[("/h/.bashrc", Node::File)]);
    assert!(tree.reconcile("/r/bashrc", "/h/.bashrc").is_ok());
    assert_eq!(tree.at("/h/.bashrc"), Some(link("/r/bashrc", false)));
    assert_eq!(tree.log[1], "RemoveFile(\"/h/.bashrc\")");
}

#[test]
fn reconcile_replaces_a_directory_and_its_contents() {
    let mut tree = with(&[
        ("/h/.vim", Node::Dir),
        ("/h/.vim/old", Node::File),
        ("/h/.vim/pack", Node::Dir),
        ("/h/.vim/pack/x", Node::File),
        ("/h/.vimrc", Node::File),
    ]);
    assert!(tree.reconcile("/r/vim", "/h/.vim").is_ok());
    assert_eq!(tree.at("/h/.vim"), Some(link("/r/vim", true)));
    assert_eq!(tree.at("/h/.vim/old"), None);
    assert_eq!(tree.at("/h/.vim/pack"), None);
    assert_eq!(tree.at("/h/.vim/pack/x"), None);
    assert_eq!(tree.at("/h/.vimrc"), Some(Node::File));
    assert_eq!(tree.log[1], "RemoveDirAll(\"/h/.vim\")");
}

#[test]
fn reconcile_replaces_a_valid_link_without_touching_its_target() {
    let mut tree = with(&[("/elsewhere", Node::File), ("/h/.bashrc", link("/elsewhere", false))]);
    assert!(tree.reconcile("/r/bashrc", "/h/.bashrc").is_ok());
    assert_eq!(tree.at("/h/.bashrc"), Some(link("/r/bashrc", false)));
    assert_eq!(tree.at("/elsewhere"), Some(Node::File));
    assert_eq!(tree.log[1], "Unlink(\"/h/.bashrc\")");
}

#[test]
fn reconcile_replaces_a_link_to_a_directory_by_unlinking_it() {
    let mut tree = with(&[
        ("/elsewhere", Node::Dir),
        ("/elsewhere/kept", Node::File),
        ("/h/.vim", link("/elsewhere", true)),
    ]);
    assert!(tree.reconcile("/r/vim", "/h/.vim").is_ok());
    assert_eq!(tree.at("/h/.vim"), Some(link("/r/vim", true)));
    assert_eq!(tree.at("/elsewhere/kept"), Some(Node::File));
    assert_eq!(tree.log[1], "Unlink(\"/h/.vim\")");
}

#[test]
fn reconcile_replaces_a_broken_link() {
    let mut tree = with(&[("/h/.bashrc", link("/gone", false))]);
    assert!(!tree.look("/h/.bashrc").exists);
    assert!(tree.reconcile("/r/bashrc", "/h/.bashrc").is_ok());
    assert_eq!(tree.at("/h/.bashrc"), Some(link("/r/bashrc", false)));
    assert_eq!(tree.log[1], "Unlink(\"/h/.bashrc\")");
}

#[test]
fn reconcile_refuses_a_destination_of_another_kind() {
    let mut tree = with(&[("/h/.sock", Node::Other)]);
    let before = tree.nodes.clone();
    let result = tree.reconcile("/r/bashrc", "/h/.sock");
    assert!(matches!(
        result,
        Err(SyncError::Filesystem(FilesystemError::InvalidPath(path))) if path == "/h/.sock"
    ));
    assert_eq!(tree.nodes, before);
    assert_eq!(tree.log, vec!["Inspect(\"/h/.sock\")".to_string()]);
}

#[test]
fn reconcile_reports_a_missing_source_and_leaves_the_destination_absent() {
    let mut tree = with(&[]);
    let result = tree.reconcile("/r/missing", "/h/.missing");
    assert!(matches!(result, Err(SyncError::SourceMissing(path)) if path == "/r/missing"));
    assert_eq!(tree.at("/h/.missing"), None);
}

#[test]
fn reconcile_clears_an_occupied_destination_before_it_reports_a_missing_source() {
    for occupant in [Node::File, Node::Dir, link("/r/bashrc", false), link("/gone", false)] {
        let mut tree = with(&[("/h/.missing", occupant)]);
        let result = tree.reconcile("/r/missing", "/h/.missing");
        assert!(matches!(result, Err(SyncError::SourceMissing(path)) if path == "/r/missing"));
        assert_eq!(tree.at("/h/.missing"), None);
        assert!(tree.log.iter().all(|entry| !entry.starts_with("Link")));
    }
}

#[test]
fn reconcile_looks_at_the_source_only_after_the_destination_is_clear() {
    let mut tree = with(&[("/h/d", Node::Dir), ("/h/d/inner", Node::File)]);
    let result = tree.reconcile("/h/d/inner", "/h/d");
    assert!(matches!(result, Err(SyncError::SourceMissing(path)) if path == "/h/d/inner"));
    assert_eq!(tree.at("/h/d"), None);
}

#[test]
fn reconcile_refuses_a_source_of_another_kind() {
    let mut tree = with(&[("/r/fifo", Node::Other), ("/h/.fifo", Node::File)]);
    let result = tree.reconcile("/r/fifo", "/h/.fifo");
    assert!(matches!(
        result,
        Err(SyncError::Filesystem(FilesystemError::InvalidPath(path))) if path == "/r/fifo"
    ));
    assert_eq!(tree.at("/h/.fifo"), None);
}

#[test]
fn reconcile_links_by_the_type_the_source_leads_to() {
    let mut tree = with(&[("/r/alias", link("/r/vim", true)), ("/r/name", link("/r/bashrc", false))]);
    assert!(tree.reconcile("/r/alias", "/h/a").is_ok());
    assert!(tree.reconcile("/r/name", "/h/n").is_ok());
    assert_eq!(tree.at("/h/a"), Some(link("/r/alias", true)));
    assert_eq!(tree.at("/h/n"), Some(link("/r/name", false)));
}

#[test]
fn reconcile_twice_leaves_the_same_tree() {
    let starts = [
        with(&[]),
        with(&[("/h/.bashrc", Node::File)]),
        with(&[("/h/.bashrc", Node::Dir), ("/h/.bashrc/x", Node::File)]),
        with(&[("/h/.bashrc", link("/gone", false))]),
        with(&[("/h/.bashrc", Node::Other)]),
    ];
    for start in starts {
        for source in ["/r/bashrc", "/r/vim", "/r/missing"] {
            let mut tree = start.clone();
            let first = tree.reconcile(source, "/h/.bashrc").is_ok();
            let once = tree.nodes.clone();
            let second = tree.reconcile(source, "/h/.bashrc").is_ok();
            assert_eq!(first, second);
            assert_eq!(tree.nodes, once);
        }
    }
}

#[test]
fn a_failed_removal_ends_the_reconciliation_with_its_cause() {
    let (mut reconciler, _) = Reconciler::new("/r/bashrc", "/h/.bashrc");
    let step = reconciler.advance(Reply::Probed(Probe {
        is_link: false,
        exists: true,
        is_file: true,
        is_dir: false,
    }));
    assert!(matches!(step, Step::Perform(Operation::RemoveFile(path)) if path == "/h/.bashrc"));
    assert_eq!(reconciler.stage(), Stage::Clear);
    let denied = std::io::Error::new(std::io::ErrorKind::PermissionDenied, "denied");
    let step = reconciler.advance(Reply::Performed(Err(denied)));
    assert!(matches!(
        step,
        Step::Done(Err(SyncError::Filesystem(FilesystemError::Io(cause))))
            if cause.kind() == std::io::ErrorKind::PermissionDenied
    ));
    assert_eq!(reconciler.stage(), Stage::Finished);
}

#[test]
fn a_failed_link_ends_the_reconciliation_with_its_cause() {
    let (mut reconciler, _) = Reconciler::new("/r/bashrc", "/h/.bashrc");
    let absent = Probe { is_link: false, exists: false, is_file: false, is_dir: false };
    let file = Probe { is_link: false, exists: true, is_file: true, is_dir: false };
    let step = reconciler.advance(Reply::Probed(absent));
    assert!(matches!(step, Step::Perform(Operation::Inspect(path)) if path == "/r/bashrc"));
    let step = reconciler.advance(Reply::Probed(file));
    assert!(matches!(step, Step::Perform(Operation::LinkFile { .. })));
    let full = std::io::Error::new(std::io::ErrorKind::Other, "disk full");
    let step = reconciler.advance(Reply::Performed(Err(full)));
    assert!(matches!(step, Step::Done(Err(SyncError::Filesystem(FilesystemError::Io(_))))));
}

#[test]
fn accepts_only_the_reply_that_is_pending() {
    let (mut reconciler, _) = Reconciler::new("/r/bashrc", "/h/.bashrc");
    let file = Probe { is_link: false, exists: true, is_file: true, is_dir: false };
    assert!(reconciler.accepts(&Reply::Probed(file)));
    assert!(!reconciler.accepts(&Reply::Performed(Ok(()))));
    reconciler.advance(Reply::Probed(file));
    assert!(!reconciler.accepts(&Reply::Probed(file)));
    assert!(reconciler.accepts(&Reply::Performed(Ok(()))));
}

#[test]
fn run_of_no_pairs_is_done_at_once() {
    let (batch, step) = Batch::new(Vec::new());
    assert!(matches!(step, Step::Done(Ok(()))));
    assert_eq!(batch.stage(), Stage::Finished);
    assert_eq!(batch.index(), 0);
    assert!(!batch.accepts(&Reply::Performed(Ok(()))));
}

#[test]
fn run_links_a_file_and_a_directory() {
    let mapping = Mapping::from_yaml("{\"bashrc\": \"~/.bashrc\", \"vim\": \"~/.vim\"}").unwrap();
    let mut tree = with(&[("/home/u/.bashrc", Node::File)]);
    let result = tree.drive(run(&mapping, "/r", "/home/u"));
    assert!(result.is_ok());
    assert_eq!(tree.at("/home/u/.bashrc"), Some(link("/r/bashrc", false)));
    assert_eq!(tree.at("/home/u/.vim"), Some(link("/r/vim", true)));
    assert_eq!(tree.at("/r/bashrc"), Some(Node::File));
    assert_eq!(tree.at("/r/vim"), Some(Node::Dir));
}

#[test]
fn run_reports_a_missing_source() {
    let mapping = Mapping::from_yaml("{\"missing\": \"~/.missing\"}").unwrap();
    let mut tree = Tree::of(&[("/r", Node::Dir)]);
    assert_eq!(tree.at("/home/u/.missing"), None);
    let result = tree.drive(run(&mapping, "/r", "/home/u"));
    assert!(matches!(result, Err(SyncError::SourceMissing(path)) if path == "/r/missing"));
    assert_eq!(tree.at("/home/u/.missing"), None);
}

#[test]
fn run_twice_leaves_the_same_tree() {
    let pairs = [("/r/bashrc", "/h/.bashrc"), ("/r/vim", "/h/.vim"), ("/r/missing", "/h/.m"), ("/r/bashrc", "/h/.late")];
    let mut tree = with(&[
        ("/h/.bashrc", Node::Dir),
        ("/h/.bashrc/x", Node::File),
        ("/h/.vim", link("/gone", true)),
        ("/h/.m", Node::File),
        ("/h/.late", Node::File),
    ]);
    let first = tree.run(&pairs);
    assert!(matches!(&first, Err(SyncError::SourceMissing(path)) if path == "/r/missing"));
    let once = tree.nodes.clone();
    assert_eq!(tree.at("/h/.bashrc"), Some(link("/r/bashrc", false)));
    assert_eq!(tree.at("/h/.vim"), Some(link("/r/vim", true)));
    assert_eq!(tree.at("/h/.m"), None);
    assert_eq!(tree.at("/h/.late"), Some(Node::File));
    let second = tree.run(&pairs);
    assert!(matches!(&second, Err(SyncError::SourceMissing(path)) if path == "/r/missing"));
    assert_eq!(tree.nodes, once);
}

#[test]
fn run_twice_on_a_run_that_succeeds_leaves_the_same_tree() {
    let pairs = [("/r/bashrc", "/h/.bashrc"), ("/r/vim", "/h/.vim")];
    let mut tree = with(&[("/h/.vim", Node::File)]);
    assert!(tree.run(&pairs).is_ok());
    let once = tree.nodes.clone();
    assert!(tree.run(&pairs).is_ok());
    assert_eq!(tree.nodes, once);
}

#[test]
fn run_stops_at_the_first_failure_and_leaves_the_rest_alone() {
    let pairs = [("/r/bashrc", "/h/.sock"), ("/r/vim", "/h/.vim")];
    let mut tree = with(&[("/h/.sock", Node::Other), ("/h/.vim", Node::File)]);
    let before = tree.nodes.clone();
    let result = tree.run(&pairs);
    assert!(matches!(
        result,
        Err(SyncError::Filesystem(FilesystemError::InvalidPath(path))) if path == "/h/.sock"
    ));
    assert_eq!(tree.nodes, before);
    assert_eq!(tree.at("/h/.vim"), Some(Node::File));
    assert!(tree.log.iter().all(|entry| !entry.contains("/h/.vim") && !entry.contains("/r/vim")));
}

#[test]
fn run_keeps_what_was_reconciled_before_the_failure() {
    let pairs = [("/r/bashrc", "/h/.bashrc"), ("/r/fifo", "/h/.fifo"), ("/r/vim", "/h/.vim")];
    let mut tree = with(&[("/r/fifo", Node::Other), ("/h/.fifo", Node::File), ("/h/.vim", Node::Dir)]);
    let result = tree.run(&pairs);
    assert!(matches!(
        result,
        Err(SyncError::Filesystem(FilesystemError::InvalidPath(path))) if path == "/r/fifo"
    ));
    assert_eq!(tree.at("/h/.bashrc"), Some(link("/r/bashrc", false)));
    assert_eq!(tree.at("/h/.fifo"), None);
    assert_eq!(tree.at("/h/.vim"), Some(Node::Dir));
}

#[test]
fn run_moves_on_to_the_next_pair_within_one_step() {
    let pairs = vec![
        Pair { source: "/r/bashrc".to_string(), destination: "/h/a".to_string() },
        Pair { source: "/r/vim".to_string(), destination: "/h/b".to_string() },
    ];
    let absent = Probe { is_link: false, exists: false, is_file: false, is_dir: false };
    let file = Probe { is_link: false, exists: true, is_file: true, is_dir: false };
    let (mut batch, step) = Batch::new(pairs);
    assert!(matches!(step, Step::Perform(Operation::Inspect(path)) if path == "/h/a"));
    assert!(matches!(batch.advance(Reply::Probed(absent)), Step::Perform(Operation::Inspect(path)) if path == "/r/bashrc"));
    assert!(matches!(batch.advance(Reply::Probed(file)), Step::Perform(Operation::LinkFile { .. })));
    assert_eq!(batch.index(), 0);
    let step = batch.advance(Reply::Performed(Ok(())));
    assert!(matches!(step, Step::Perform(Operation::Inspect(path)) if path == "/h/b"));
    assert_eq!(batch.index(), 1);
    assert_eq!(batch.stage(), Stage::Examine);
}

#[test]
fn run_ends_on_a_failed_primitive() {
    let pairs = vec![
        Pair { source: "/r/bashrc".to_string(), destination: "/h/a".to_string() },
        Pair { source: "/r/vim".to_string(), destination: "/h/b".to_string() },
    ];
    let occupied = Probe { is_link: true, exists: false, is_file: false, is_dir: false };
    let (mut batch, _) = Batch::new(pairs);
    assert!(matches!(batch.advance(Reply::Probed(occupied)), Step::Perform(Operation::Unlink(path)) if path == "/h/a"));
    let denied = std::io::Error::new(std::io::ErrorKind::PermissionDenied, "denied");
    let step = batch.advance(Reply::Performed(Err(denied)));
    assert!(matches!(step, Step::Done(Err(SyncError::Filesystem(FilesystemError::Io(_))))));
    assert_eq!(batch.stage(), Stage::Finished);
    assert_eq!(batch.index(), 0);
    assert!(!batch.accepts(&Reply::Performed(Ok(()))));
}
