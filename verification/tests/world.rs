use protonup::archive::DirEntry;
use protonup::copy::{plan_copy, Child, CopyOp, Node};
use protonup::error::InstallError;
use protonup::installer::{Installer, Outcome, Step, Uninstaller};
use std::collections::BTreeMap;

type Tree = BTreeMap<Vec<Vec<u8>>, String>;

/// A directory beside the staging file: what it holds, by position.
type Scratch = Vec<(bool, Tree, Option<usize>)>;

struct Disk {
    root: Option<BTreeMap<String, Tree>>,
    /// The directories beside the staging file, by name. An entry is a
    /// directory or not, has a tree, and may stand for one of `unpacked`.
    scratch: BTreeMap<String, Scratch>,
    /// What the archive unpacks to.
    unpacked: Vec<Child>,
    /// The directory that was unpacked into last.
    dir: String,
    rename_works: bool,
}

fn child(name: &str, node: Node) -> Child {
    Child { name: name.as_bytes().to_vec(), node }
}

fn text(bytes: &[u8]) -> String {
    String::from_utf8_lossy(bytes).into_owned()
}

fn whole(node: &Node, at: Vec<Vec<u8>>, out: &mut Tree) {
    match node {
        Node::File => {
            out.insert(at, "file".to_string());
        }
        Node::Link(t) => {
            out.insert(at, format!("link to {}", text(t)));
        }
        Node::Other => {
            out.insert(at, "other".to_string());
        }
        Node::Dir(children) => {
            out.insert(at.clone(), "dir".to_string());
            for c in children {
                let mut below = at.clone();
                below.push(c.name.clone());
                whole(&c.node, below, out);
            }
        }
    }
}

fn tree_of(node: &Node) -> Tree {
    let mut t = Tree::new();
    whole(node, vec![], &mut t);
    t
}

impl Disk {
    fn perform(&mut self, step: &Step, target: &str) -> Outcome {
        match step {
            Step::MakeDir { dir_name } => {
                if self.scratch.contains_key(dir_name) {
                    return Outcome::Exists(true);
                }
                self.scratch.insert(dir_name.clone(), Vec::new());
                Outcome::Done
            }
            Step::Extract { dir_name, .. } => {
                let dir = self.scratch.get_mut(dir_name).unwrap();
                for (at, c) in self.unpacked.iter().enumerate() {
                    dir.push((matches!(c.node, Node::Dir(_)), tree_of(&c.node), Some(at)));
                }
                self.dir = dir_name.clone();
                Outcome::Done
            }
            Step::ListExtracted => Outcome::Listed(
                self.scratch[&self.dir]
                    .iter()
                    .map(|(is_dir, _, _)| DirEntry { name: "entry".to_string(), is_dir: *is_dir })
                    .collect(),
            ),
            Step::CreateRoot => {
                if self.root.is_none() {
                    self.root = Some(BTreeMap::new());
                }
                Outcome::Done
            }
            Step::ProbeTarget => {
                Outcome::Exists(self.root.as_ref().map_or(false, |r| r.contains_key(target)))
            }
            Step::RemoveTarget => {
                self.root.as_mut().unwrap().remove(target);
                Outcome::Done
            }
            Step::Rename { payload } => {
                if !self.rename_works {
                    return Outcome::Failed;
                }
                let tree = self.scratch[&self.dir][*payload].1.clone();
                self.root.as_mut().unwrap().insert(target.to_string(), tree);
                Outcome::Done
            }
            Step::Copy { payload } => {
                let source = self.scratch[&self.dir][*payload].2;
                let root = self.root.as_mut().unwrap();
                let dst = root.entry(target.to_string()).or_insert_with(Tree::new);
                match source {
                    Some(at) => {
                        for op in plan_copy(&self.unpacked[at].node) {
                            match op {
                                CopyOp::CreateDir { path } => dst.insert(path, "dir".to_string()),
                                CopyOp::CopyFile { path } => dst.insert(path, "file".to_string()),
                                CopyOp::Link { path, target } => {
                                    dst.insert(path, format!("link to {}", text(&target)))
                                }
                            };
                        }
                    }
                    None => dst.extend(self.scratch[&self.dir][*payload].1.clone()),
                }
                Outcome::Done
            }
            Step::RemoveExtracted => {
                self.scratch.remove(&self.dir);
                Outcome::Done
            }
            _ => Outcome::Done,
        }
    }

    fn install(&mut self, url: &str, target: &str) -> Result<(), InstallError> {
        let mut machine = Installer::new(url, target, 5);
        let mut outcome = Outcome::Done;
        loop {
            match machine.advance(outcome) {
                Step::Finished => return Ok(()),
                Step::Failed(e) => return Err(e),
                step => outcome = self.perform(&step, target),
            }
        }
    }

    fn uninstall(&mut self, target: &str) -> Result<(), InstallError> {
        let mut machine = Uninstaller::new(target);
        let mut outcome = Outcome::Done;
        loop {
            match machine.advance(outcome) {
                Step::Finished => return Ok(()),
                Step::Failed(e) => return Err(e),
                step => outcome = self.perform(&step, target),
            }
        }
    }
}

fn payload_a() -> Node {
    Node::Dir(vec![
        child("proton", Node::File),
        child("files", Node::Dir(vec![child("lib64", Node::Link(b"lib".to_vec()))])),
    ])
}

fn payload_b() -> Node {
    Node::Dir(vec![child("wine", Node::File)])
}

fn disk(unpacked: Vec<Child>, rename_works: bool) -> Disk {
    Disk { root: None, scratch: BTreeMap::new(), unpacked, dir: String::new(), rename_works }
}

#[test]
fn install_leaves_one_entry_with_the_payload() {
    for url in ["https://x/p.tar.gz", "https://x/p.tgz", "https://x/p.tar.xz"] {
        for rename_works in [true, false] {
            let mut d = disk(vec![child("notes", Node::File), child("p-1", payload_a())], rename_works);
            assert_eq!(d.install(url, "v1"), Ok(()));
            let root = d.root.as_ref().unwrap();
            assert_eq!(root.keys().collect::<Vec<_>>(), vec!["v1"]);
            assert_eq!(root["v1"], tree_of(&payload_a()));
        }
    }
}

#[test]
fn second_install_replaces_the_first() {
    for rename_works in [true, false] {
        let mut d = disk(vec![child("a", payload_a())], rename_works);
        let mut others = BTreeMap::new();
        others.insert("other-tool".to_string(), tree_of(&payload_b()));
        d.root = Some(others);
        assert_eq!(d.install("https://x/p.tar.gz", "v1"), Ok(()));
        d.unpacked = vec![child("b", payload_b())];
        assert_eq!(d.install("https://x/p.tar.gz", "v1"), Ok(()));
        let root = d.root.as_ref().unwrap();
        assert_eq!(root.keys().collect::<Vec<_>>(), vec!["other-tool", "v1"]);
        assert_eq!(root["v1"], tree_of(&payload_b()));
        assert_eq!(root["other-tool"], tree_of(&payload_b()));
    }
}

#[test]
fn install_then_uninstall_then_uninstall() {
    let mut d = disk(vec![child("a", payload_a())], true);
    assert_eq!(d.install("https://x/p.tar.xz", "v1"), Ok(()));
    assert_eq!(d.uninstall("v1"), Ok(()));
    assert!(!d.root.as_ref().unwrap().contains_key("v1"));
    assert_eq!(d.uninstall("v1"), Err(InstallError::NotFound));
    assert!(d.root.as_ref().unwrap().is_empty());
}

#[test]
fn copy_gives_what_rename_gives() {
    let mut renamed = disk(vec![child("a", payload_a())], true);
    let mut copied = disk(vec![child("a", payload_a())], false);
    assert_eq!(renamed.install("https://x/p.tar.gz", "v1"), Ok(()));
    assert_eq!(copied.install("https://x/p.tar.gz", "v1"), Ok(()));
    assert_eq!(renamed.root, copied.root);
    let tree = &copied.root.as_ref().unwrap()["v1"];
    assert_eq!(tree[&vec![b"files".to_vec(), b"lib64".to_vec()]], "link to lib");
}

#[test]
fn copy_leaves_out_what_is_neither_file_directory_nor_link() {
    let payload = Node::Dir(vec![child("sock", Node::Other), child("f", Node::File)]);
    let mut d = disk(vec![child("a", payload)], false);
    assert_eq!(d.install("https://x/p.tar.gz", "v1"), Ok(()));
    let tree = &d.root.as_ref().unwrap()["v1"];
    assert_eq!(tree.len(), 2);
    assert!(!tree.contains_key(&vec![b"sock".to_vec()]));
    assert_eq!(tree[&vec![b"f".to_vec()]], "file");
}

#[test]
fn flat_archive_fails_and_leaves_the_root_alone() {
    let mut d = disk(vec![child("only-a-file", Node::File)], true);
    assert_eq!(d.install("https://x/p.tar.gz", "v1"), Err(InstallError::NoPayloadDirectory));
    assert!(d.root.is_none());
    let mut kept = BTreeMap::new();
    kept.insert("v1".to_string(), tree_of(&payload_b()));
    d.root = Some(kept.clone());
    assert_eq!(d.install("https://x/p.tar.gz", "v1"), Err(InstallError::NoPayloadDirectory));
    assert_eq!(d.root, Some(kept));
}

#[test]
fn leftover_directory_of_the_same_name_is_not_unpacked_into() {
    for rename_works in [true, false] {
        let mut d = disk(vec![child("a", payload_a())], rename_works);
        let stale = vec![(true, tree_of(&payload_b()), None)];
        d.scratch.insert("protonup-extract-5".to_string(), stale.clone());
        assert_eq!(d.install("https://x/p.tar.gz", "v1"), Ok(()));
        assert_eq!(d.root.as_ref().unwrap()["v1"], tree_of(&payload_a()));
        assert_eq!(d.scratch.len(), 1);
        assert_eq!(d.scratch["protonup-extract-5"], stale);
    }
}

#[test]
fn flat_archive_beside_a_leftover_directory_has_no_payload() {
    let mut d = disk(vec![child("only-a-file", Node::File)], true);
    d.scratch.insert("protonup-extract-5".to_string(), vec![(true, tree_of(&payload_b()), None)]);
    assert_eq!(d.install("https://x/p.tar.gz", "v1"), Err(InstallError::NoPayloadDirectory));
    assert!(d.root.is_none());
}
