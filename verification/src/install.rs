use crate::digest::{digest_accepts, has_digest, sha512, DIGEST_BYTES};
use crate::manifest::{EntryView, ModEntry};
use crate::path::{
    has_parent_component, is_safe_relative, join, joined, parent_directory, parent_of,
};
use vstd::prelude::*;

verus! {

/// Why a downloaded artifact was not installed.
#[derive(Clone, Copy, Debug, PartialEq, Eq, Structural)]
pub enum SkipReason {
    /// The bytes do not have the digest that the manifest declares.
    HashMismatch,
}

/// Where an artifact is written, and what.
pub struct InstallView {
    pub relative_path: Seq<char>,
    pub directory: Seq<char>,
    pub target: Seq<char>,
    pub bytes: Seq<u8>,
}

/// An artifact that passed its check, ready to be written: `bytes` go to
/// the file `target`, after `directory` and the directories above it have
/// been made.
#[derive(Debug, PartialEq)]
pub struct Install {
    pub relative_path: String,
    pub directory: String,
    pub target: String,
    pub bytes: Vec<u8>,
}

impl View for Install {
    type V = InstallView;

    open spec fn view(&self) -> InstallView {
        InstallView {
            relative_path: self.relative_path@,
            directory: self.directory@,
            target: self.target@,
            bytes: self.bytes@,
        }
    }
}

/// The bytes have the digest that the entry declares: the declared text is
/// the SHA-512 digest of the bytes in hexadecimal, in either case.
pub open spec fn accepts(entry: EntryView, bytes: Seq<u8>) -> bool {
    digest_accepts(sha512(bytes), entry.expected_digest)
}

/// How the artifact of `entry` is installed below `root`.
pub open spec fn install_of(root: Seq<char>, entry: EntryView, bytes: Seq<u8>) -> InstallView {
    InstallView {
        relative_path: entry.relative_path,
        directory: parent_of(joined(root, entry.relative_path)),
        target: joined(root, entry.relative_path),
        bytes,
    }
}

/// The install puts its artifact below `root`: at the target that its
/// relative path names there, and that path is safe.
pub open spec fn lies_below(root: Seq<char>, install: InstallView) -> bool {
    is_safe_relative(install.relative_path) && install.target == joined(
        root,
        install.relative_path,
    )
}

/// The files below the install root, by path, after `install` has been
/// carried out on `files`: the target holds the bytes, whatever it held.
pub open spec fn after_install(
    files: Map<Seq<char>, Seq<u8>>,
    install: InstallView,
) -> Map<Seq<char>, Seq<u8>> {
    files.insert(install.target, install.bytes)
}

/// Checks downloaded bytes against the digest that `entry` declares.
///
/// Hands the bytes back if they have it, and else reports a mismatch.
pub fn verify_download(entry: &ModEntry, bytes: Vec<u8>) -> (r: Result<Vec<u8>, SkipReason>)
    ensures
        match r {
            Ok(checked) => accepts(entry@, bytes@) && checked@ == bytes@,
            Err(reason) => !accepts(entry@, bytes@) && reason == SkipReason::HashMismatch,
        },
        r is Ok ==> entry@.expected_digest.len() == 2 * DIGEST_BYTES,
{
    if has_digest(bytes.as_slice(), entry.expected_digest().as_str()) {
        Ok(bytes)
    } else {
        Err(SkipReason::HashMismatch)
    }
}

/// Says where below `root` the artifact of `entry` goes.
pub fn plan_install(root: &str, entry: &ModEntry, bytes: Vec<u8>) -> (install: Install)
    ensures
        install@ == install_of(root@, entry@, bytes@),
        lies_below(root@, install@),
{
    let relative_path = entry.relative_path().clone();
    let target = join(root, relative_path.as_str());
    let directory = parent_directory(target.as_str());
    Install { relative_path, directory, target, bytes }
}

/// An install that lies below a root writes to the root, a separator where
/// the root is not empty and has none at its end, and a path that has no
/// `..` component: the target begins with the root and never climbs out.
pub proof fn lemma_target_below_root(root: Seq<char>, install: InstallView)
    requires
        lies_below(root, install),
    ensures
        install.target == root + install.relative_path || install.target == root + seq!['/']
            + install.relative_path,
        install.target.take(root.len() as int) == root,
        !has_parent_component(install.relative_path),
{
}

/// Carrying out the same install twice leaves the files as carrying it out
/// once does.
pub proof fn lemma_install_twice(files: Map<Seq<char>, Seq<u8>>, install: InstallView)
    ensures
        after_install(after_install(files, install), install) == after_install(files, install),
        after_install(files, install)[install.target] == install.bytes,
{
}

} // verus!
