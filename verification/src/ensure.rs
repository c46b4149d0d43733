//! Idempotent convergence primitives over filesystem entries.
//!
//! Each primitive inspects the observed state of one path (handed in by the
//! caller, which re-reads it fresh on every call), computes the minimal
//! corrective work, and returns the predicted state after that work, whether
//! any work was needed, and the operations the caller must replay on the real
//! filesystem. The primitives are pure: the caller performs the operations.

use vstd::prelude::*;
use vstd::string::StringSliceAdditionalSpecFns;
use vstd::string::StrSliceExecFns;

verus! {

/// The type of a filesystem entry.
#[derive(Debug, Clone, Copy, PartialEq, Eq, Structural)]
pub enum FileType {
    Directory,
    File,
    Link,
}

/// An owner or group identity: numeric, or symbolic when the numeric id is
/// not known.
#[derive(Debug, Clone, PartialEq)]
pub enum Id {
    Name(String),
    Id(u32),
}

/// Snapshot of one filesystem entry's metadata, captured fresh at the start
/// of every convergence primitive.
#[derive(Debug, Clone, PartialEq)]
pub struct FileInfo {
    pub filetype: FileType,
    pub perms: u32,
    pub owner: Id,
    pub group: Id,
    pub target: Option<String>,
}

impl FileInfo {
    /// True when the entry is a regular file.
    pub fn is_file(&self) -> (r: bool)
        ensures
            r == (self.filetype == FileType::File),
    {
        matches!(self.filetype, FileType::File)
    }

    /// True when the owner's execute bit is set in the permission bits.
    pub fn is_user_executable(&self) -> (r: bool)
        ensures
            r == ((self.perms & 0o100) != 0),
    {
        (self.perms & 0o100) != 0
    }
}

/// Creation policy: never touch an existing entry's content, or enforce the
/// exact desired content.
#[derive(Debug, Clone, Copy, PartialEq, Eq, Structural)]
pub enum Create {
    IfMissing,
    Always,
}

/// Snapshot of one filesystem entry including file content.
#[derive(Debug, Clone, PartialEq)]
pub struct Entry {
    pub info: FileInfo,
    pub content: Vec<u8>,
}

/// Mathematical value of an [`Entry`].
pub struct EntryV {
    pub info: FileInfo,
    pub content: Seq<u8>,
}

impl View for Entry {
    type V = EntryV;

    open spec fn view(&self) -> EntryV {
        EntryV { info: self.info, content: self.content@ }
    }
}

/// One corrective operation for the caller to replay on the path the
/// primitive was asked about. The desired content and symlink target are the
/// ones the caller passed in, so the operations need not repeat them.
#[derive(Debug, Clone, Copy, PartialEq, Eq, Structural)]
pub enum FsOp {
    CreateDir { mode: u32 },
    WriteDesiredContent,
    CreateDesiredSymlink,
    RemoveEntry,
    Chmod { mode: u32 },
    Chown { owner: u32, group: u32 },
}

/// A convergence primitive found an entry it refuses to touch.
#[derive(Debug, Clone, Copy, PartialEq, Eq, Structural)]
pub enum EnsureError {
    /// The path does not exist where an entry was required.
    Missing,
    /// An entry of an unexpected type sits at the path.
    UnexpectedType { found: FileType },
}

/// True when the identity equals the given numeric id.
pub open spec fn id_matches(id: Id, n: u32) -> bool {
    id == Id::Id(n)
}

/// True when the entry's permission bits and ownership already agree with the
/// desired values. Symbolic links have no meaningful permission bits, so they
/// are exempt from the permission comparison.
pub open spec fn meta_clean(fi: FileInfo, owner: u32, group: u32, mode: u32) -> bool {
    &&& (fi.filetype == FileType::Link || fi.perms == mode)
    &&& id_matches(fi.owner, owner)
    &&& id_matches(fi.group, group)
}

/// The entry's metadata after reconciliation: permission bits set (except on
/// symbolic links) and ownership set; type and link target untouched.
pub open spec fn meta_fixed(fi: FileInfo, owner: u32, group: u32, mode: u32) -> FileInfo {
    FileInfo {
        filetype: fi.filetype,
        perms: if fi.filetype == FileType::Link {
            fi.perms
        } else {
            mode
        },
        owner: Id::Id(owner),
        group: Id::Id(group),
        target: fi.target,
    }
}

/// The operations that reconciliation issues: a permission change and an
/// ownership change, each only on mismatch.
pub open spec fn meta_ops(fi: FileInfo, owner: u32, group: u32, mode: u32) -> Seq<FsOp> {
    let chmod: Seq<FsOp> = if fi.filetype != FileType::Link && fi.perms != mode {
        seq![FsOp::Chmod { mode }]
    } else {
        Seq::empty()
    };
    let chown: Seq<FsOp> = if !(id_matches(fi.owner, owner) && id_matches(fi.group, group)) {
        seq![FsOp::Chown { owner, group }]
    } else {
        Seq::empty()
    };
    chmod + chown
}

/// What reconciling permissions and ownership of an existing entry does:
/// an error when the entry is missing, otherwise the fixed metadata, whether
/// anything had to change, and the operations to issue.
pub open spec fn perms_model(current: Option<FileInfo>, owner: u32, group: u32, mode: u32) -> Result<
    (FileInfo, bool, Seq<FsOp>),
    EnsureError,
> {
    match current {
        Option::None => Err(EnsureError::Missing),
        Option::Some(fi) => Ok(
            (
                meta_fixed(fi, owner, group, mode),
                !meta_clean(fi, owner, group, mode),
                meta_ops(fi, owner, group, mode),
            ),
        ),
    }
}

/// The canonical state of a directory that converged.
pub open spec fn dir_desired(owner: u32, group: u32, mode: u32) -> FileInfo {
    FileInfo {
        filetype: FileType::Directory,
        perms: mode,
        owner: Id::Id(owner),
        group: Id::Id(group),
        target: Option::None,
    }
}

/// What ensuring a directory does. A fresh directory's permission bits and
/// ownership depend on the creating process, so creation always issues the
/// permission and ownership operations; an existing directory is only
/// reconciled; an entry of another type is refused.
pub open spec fn directory_model(current: Option<FileInfo>, owner: u32, group: u32, mode: u32) -> Result<
    (FileInfo, bool, Seq<FsOp>),
    EnsureError,
> {
    match current {
        Option::None => Ok(
            (
                dir_desired(owner, group, mode),
                true,
                seq![FsOp::CreateDir { mode }, FsOp::Chmod { mode }, FsOp::Chown { owner, group }],
            ),
        ),
        Option::Some(fi) => if fi.filetype != FileType::Directory {
            Err(EnsureError::UnexpectedType { found: fi.filetype })
        } else {
            Ok(
                (
                    meta_fixed(fi, owner, group, mode),
                    !meta_clean(fi, owner, group, mode),
                    meta_ops(fi, owner, group, mode),
                ),
            )
        },
    }
}

/// The canonical state of a file that converged.
pub open spec fn file_desired(content: Seq<u8>, owner: u32, group: u32, mode: u32) -> EntryV {
    EntryV {
        info: FileInfo {
            filetype: FileType::File,
            perms: mode,
            owner: Id::Id(owner),
            group: Id::Id(group),
            target: Option::None,
        },
        content,
    }
}

/// What ensuring a file with the given content does, under the creation
/// policy. `IfMissing` keeps an existing file's or symbolic link's content
/// and refuses any other entry type; `Always` replaces an entry whose type or
/// content differs. Metadata is reconciled in every case.
pub open spec fn file_model(
    current: Option<EntryV>,
    desired: Seq<u8>,
    owner: u32,
    group: u32,
    mode: u32,
    create: Create,
) -> Result<(EntryV, bool, Seq<FsOp>), EnsureError> {
    match current {
        Option::None => Ok(
            (
                file_desired(desired, owner, group, mode),
                true,
                seq![FsOp::WriteDesiredContent, FsOp::Chmod { mode }, FsOp::Chown { owner, group }],
            ),
        ),
        Option::Some(e) => {
            let fi = e.info;
            if create == Create::IfMissing {
                if fi.filetype == FileType::File || fi.filetype == FileType::Link {
                    Ok(
                        (
                            EntryV { info: meta_fixed(fi, owner, group, mode), content: e.content },
                            !meta_clean(fi, owner, group, mode),
                            meta_ops(fi, owner, group, mode),
                        ),
                    )
                } else {
                    Err(EnsureError::UnexpectedType { found: fi.filetype })
                }
            } else {
                if fi.filetype == FileType::File && e.content == desired {
                    Ok(
                        (
                            EntryV { info: meta_fixed(fi, owner, group, mode), content: e.content },
                            !meta_clean(fi, owner, group, mode),
                            meta_ops(fi, owner, group, mode),
                        ),
                    )
                } else {
                    Ok(
                        (
                            file_desired(desired, owner, group, mode),
                            true,
                            seq![
                                FsOp::RemoveEntry,
                                FsOp::WriteDesiredContent,
                                FsOp::Chmod { mode },
                                FsOp::Chown { owner, group },
                            ],
                        ),
                    )
                }
            }
        },
    }
}

/// The canonical state of a symbolic link that converged. A fresh link's
/// permission bits are not under the caller's control; links are exempt from
/// permission reconciliation, so the conventional full bits stand for them.
pub open spec fn link_desired(target: String, owner: u32, group: u32) -> FileInfo {
    FileInfo {
        filetype: FileType::Link,
        perms: 0o777,
        owner: Id::Id(owner),
        group: Id::Id(group),
        target: Option::Some(target),
    }
}

/// True when the entry is a symbolic link that already points at the desired
/// target.
pub open spec fn link_target_ok(fi: FileInfo, target: String) -> bool {
    &&& fi.filetype == FileType::Link
    &&& match fi.target {
        Option::Some(t) => t@ == target@,
        Option::None => false,
    }
}

/// What ensuring a symbolic link does: an entry of the wrong type or with the
/// wrong target is removed and recreated; ownership is reconciled; permission
/// bits are never touched on links.
pub open spec fn symlink_model(current: Option<FileInfo>, target: String, owner: u32, group: u32) -> Result<
    (FileInfo, bool, Seq<FsOp>),
    EnsureError,
> {
    match current {
        Option::None => Ok(
            (
                link_desired(target, owner, group),
                true,
                seq![FsOp::CreateDesiredSymlink, FsOp::Chown { owner, group }],
            ),
        ),
        Option::Some(fi) => if link_target_ok(fi, target) {
            Ok(
                (
                    meta_fixed(fi, owner, group, 0),
                    !meta_clean(fi, owner, group, 0),
                    meta_ops(fi, owner, group, 0),
                ),
            )
        } else {
            Ok(
                (
                    link_desired(target, owner, group),
                    true,
                    seq![FsOp::RemoveEntry, FsOp::CreateDesiredSymlink, FsOp::Chown { owner, group }],
                ),
            )
        },
    }
}

/// What removing a file or symbolic link does: nothing when the path is
/// absent, removal for those two types, and a refusal for any other type.
pub open spec fn removed_model(current: Option<FileInfo>) -> Result<(bool, Seq<FsOp>), EnsureError> {
    match current {
        Option::None => Ok((false, Seq::empty())),
        Option::Some(fi) => if fi.filetype == FileType::File || fi.filetype == FileType::Link {
            Ok((true, seq![FsOp::RemoveEntry]))
        } else {
            Err(EnsureError::UnexpectedType { found: fi.filetype })
        },
    }
}

/// The mathematical value of an optional entry snapshot.
pub open spec fn opt_entry_view(current: Option<Entry>) -> Option<EntryV> {
    match current {
        Option::Some(e) => Option::Some(e@),
        Option::None => Option::None,
    }
}

fn clone_opt_string(o: &Option<String>) -> (r: Option<String>)
    ensures
        r == *o,
{
    match o {
        Option::Some(s) => Option::Some(s.clone()),
        Option::None => Option::None,
    }
}

fn id_is(id: &Id, n: u32) -> (r: bool)
    ensures
        r == id_matches(*id, n),
{
    match id {
        Id::Id(x) => *x == n,
        Id::Name(_) => false,
    }
}

fn apply_meta(fi: &FileInfo, owner: u32, group: u32, mode: u32) -> (r: (FileInfo, bool, Vec<FsOp>))
    ensures
        r.0 == meta_fixed(*fi, owner, group, mode),
        r.1 == !meta_clean(*fi, owner, group, mode),
        r.2@ == meta_ops(*fi, owner, group, mode),
{
    let mut ops: Vec<FsOp> = Vec::new();
    let is_link = matches!(fi.filetype, FileType::Link);
    let chmod_needed = !is_link && fi.perms != mode;
    if chmod_needed {
        ops.push(FsOp::Chmod { mode });
    }
    let chown_needed = !(id_is(&fi.owner, owner) && id_is(&fi.group, group));
    if chown_needed {
        ops.push(FsOp::Chown { owner, group });
    }
    let fixed = FileInfo {
        filetype: fi.filetype,
        perms: if is_link {
            fi.perms
        } else {
            mode
        },
        owner: Id::Id(owner),
        group: Id::Id(group),
        target: clone_opt_string(&fi.target),
    };
    proof {
        assert(ops@ =~= meta_ops(*fi, owner, group, mode));
    }
    (fixed, chmod_needed || chown_needed, ops)
}

/// Reconcile the permission bits and ownership of the entry at one path.
/// The entry must exist; symbolic links are exempt from the permission
/// comparison. Reports whether anything had to change.
pub fn perms(current: &Option<FileInfo>, owner: u32, group: u32, mode: u32) -> (r: Result<
    (FileInfo, bool, Vec<FsOp>),
    EnsureError,
>)
    ensures
        (match (perms_model(*current, owner, group, mode), r) {
            (Ok(m), Ok(e)) => m.0 == e.0 && m.1 == e.1 && m.2 =~= e.2@,
            (Err(me), Err(ee)) => me == ee,
            _ => false,
        }),
{
    match current {
        Option::None => Err(EnsureError::Missing),
        Option::Some(fi) => Ok(apply_meta(fi, owner, group, mode)),
    }
}

/// Ensure a directory exists at one path with the given ownership and
/// permission bits. An entry of another type is refused. Reports whether any
/// work was needed.
pub fn directory(current: &Option<FileInfo>, owner: u32, group: u32, mode: u32) -> (r: Result<
    (FileInfo, bool, Vec<FsOp>),
    EnsureError,
>)
    ensures
        (match (directory_model(*current, owner, group, mode), r) {
            (Ok(m), Ok(e)) => m.0 == e.0 && m.1 == e.1 && m.2 =~= e.2@,
            (Err(me), Err(ee)) => me == ee,
            _ => false,
        }),
{
    match current {
        Option::None => {
            let mut ops: Vec<FsOp> = Vec::new();
            ops.push(FsOp::CreateDir { mode });
            ops.push(FsOp::Chmod { mode });
            ops.push(FsOp::Chown { owner, group });
            let st = FileInfo {
                filetype: FileType::Directory,
                perms: mode,
                owner: Id::Id(owner),
                group: Id::Id(group),
                target: Option::None,
            };
            Ok((st, true, ops))
        },
        Option::Some(fi) => {
            if !matches!(fi.filetype, FileType::Directory) {
                Err(EnsureError::UnexpectedType { found: fi.filetype })
            } else {
                Ok(apply_meta(fi, owner, group, mode))
            }
        },
    }
}

/// Byte-for-byte comparison of two contents, stopping at the first
/// difference in length or value.
pub fn compare(src: &Vec<u8>, dst: &Vec<u8>) -> (r: bool)
    ensures
        r == (src@ == dst@),
{
    if src.len() != dst.len() {
        return false;
    }
    let n = src.len();
    let mut i: usize = 0;
    while i < n
        invariant
            i <= n,
            n == src@.len(),
            n == dst@.len(),
            forall|j: int| 0 <= j < i ==> src@[j] == dst@[j],
        decreases n - i,
    {
        if src[i] != dst[i] {
            return false;
        }
        i = i + 1;
    }
    proof {
        assert(src@ =~= dst@);
    }
    true
}

/// Ensure a regular file with the given content, ownership and permission
/// bits at one path, under the creation policy. Reports whether any work was
/// needed.
pub fn file(
    current: &Option<Entry>,
    desired: &Vec<u8>,
    owner: u32,
    group: u32,
    mode: u32,
    create: Create,
) -> (r: Result<(Entry, bool, Vec<FsOp>), EnsureError>)
    ensures
        (match (file_model(opt_entry_view(*current), desired@, owner, group, mode, create), r) {
            (Ok(m), Ok(e)) => m.0.info == e.0@.info && m.0.content == e.0@.content && m.1 == e.1
                && m.2 =~= e.2@,
            (Err(me), Err(ee)) => me == ee,
            _ => false,
        }),
{
    match current {
        Option::None => {
            let mut ops: Vec<FsOp> = Vec::new();
            ops.push(FsOp::WriteDesiredContent);
            ops.push(FsOp::Chmod { mode });
            ops.push(FsOp::Chown { owner, group });
            let st = Entry {
                info: FileInfo {
                    filetype: FileType::File,
                    perms: mode,
                    owner: Id::Id(owner),
                    group: Id::Id(group),
                    target: Option::None,
                },
                content: clone_bytes(desired),
            };
            Ok((st, true, ops))
        },
        Option::Some(e) => {
            let is_file = matches!(e.info.filetype, FileType::File);
            let is_link = matches!(e.info.filetype, FileType::Link);
            match create {
                Create::IfMissing => {
                    if is_file || is_link {
                        let (fixed, work, ops) = apply_meta(&e.info, owner, group, mode);
                        Ok((Entry { info: fixed, content: clone_bytes(&e.content) }, work, ops))
                    } else {
                        Err(EnsureError::UnexpectedType { found: e.info.filetype })
                    }
                },
                Create::Always => {
                    if is_file && compare(&e.content, desired) {
                        let (fixed, work, ops) = apply_meta(&e.info, owner, group, mode);
                        Ok((Entry { info: fixed, content: clone_bytes(&e.content) }, work, ops))
                    } else {
                        let mut ops: Vec<FsOp> = Vec::new();
                        ops.push(FsOp::RemoveEntry);
                        ops.push(FsOp::WriteDesiredContent);
                        ops.push(FsOp::Chmod { mode });
                        ops.push(FsOp::Chown { owner, group });
                        let st = Entry {
                            info: FileInfo {
                                filetype: FileType::File,
                                perms: mode,
                                owner: Id::Id(owner),
                                group: Id::Id(group),
                                target: Option::None,
                            },
                            content: clone_bytes(desired),
                        };
                        Ok((st, true, ops))
                    }
                },
            }
        },
    }
}

fn clone_bytes(v: &Vec<u8>) -> (r: Vec<u8>)
    ensures
        r@ == v@,
{
    let mut out: Vec<u8> = Vec::new();
    let n = v.len();
    let mut i: usize = 0;
    while i < n
        invariant
            i <= n,
            n == v@.len(),
            out@ == v@.subrange(0, i as int),
        decreases n - i,
    {
        out.push(v[i]);
        i = i + 1;
    }
    proof {
        assert(out@ == v@.subrange(0, n as int));
        assert(v@.subrange(0, n as int) == v@);
    }
    out
}

/// Ensure a regular file whose desired content is given as a string: the
/// content is the string's bytes.
pub fn filestr(
    contents: &str,
    current: &Option<Entry>,
    owner: u32,
    group: u32,
    mode: u32,
    create: Create,
) -> (r: Result<(Entry, bool, Vec<FsOp>), EnsureError>)
    ensures
        (match (
            file_model(opt_entry_view(*current), contents.spec_bytes(), owner, group, mode, create),
            r,
        ) {
            (Ok(m), Ok(e)) => m.0.info == e.0@.info && m.0.content == e.0@.content && m.1 == e.1
                && m.2 =~= e.2@,
            (Err(me), Err(ee)) => me == ee,
            _ => false,
        }),
{
    let desired = contents.as_bytes_vec();
    file(current, &desired, owner, group, mode, create)
}

/// Ensure a symbolic link at one path pointing at `target`, owned as given.
/// Links are exempt from permission reconciliation. Reports whether any work
/// was needed.
pub fn symlink(current: &Option<FileInfo>, target: &String, owner: u32, group: u32) -> (r: Result<
    (FileInfo, bool, Vec<FsOp>),
    EnsureError,
>)
    ensures
        (match (symlink_model(*current, *target, owner, group), r) {
            (Ok(m), Ok(e)) => m.0 == e.0 && m.1 == e.1 && m.2 =~= e.2@,
            (Err(me), Err(ee)) => me == ee,
            _ => false,
        }),
{
    match current {
        Option::None => {
            let mut ops: Vec<FsOp> = Vec::new();
            ops.push(FsOp::CreateDesiredSymlink);
            ops.push(FsOp::Chown { owner, group });
            Ok((fresh_link(target, owner, group), true, ops))
        },
        Option::Some(fi) => {
            let target_ok = match (&fi.filetype, &fi.target) {
                (FileType::Link, Option::Some(t)) => t.eq(target),
                _ => false,
            };
            if target_ok {
                Ok(apply_meta(fi, owner, group, 0))
            } else {
                let mut ops: Vec<FsOp> = Vec::new();
                ops.push(FsOp::RemoveEntry);
                ops.push(FsOp::CreateDesiredSymlink);
                ops.push(FsOp::Chown { owner, group });
                Ok((fresh_link(target, owner, group), true, ops))
            }
        },
    }
}

fn fresh_link(target: &String, owner: u32, group: u32) -> (r: FileInfo)
    ensures
        r == link_desired(*target, owner, group),
{
    FileInfo {
        filetype: FileType::Link,
        perms: 0o777,
        owner: Id::Id(owner),
        group: Id::Id(group),
        target: Option::Some(target.clone()),
    }
}

/// Remove the file or symbolic link at one path if it exists; refuse to
/// delete an entry of any other type. Reports whether a removal was issued.
pub fn removed(current: &Option<FileInfo>) -> (r: Result<(bool, Vec<FsOp>), EnsureError>)
    ensures
        (match (removed_model(*current), r) {
            (Ok(m), Ok(e)) => m.0 == e.0 && m.1 =~= e.1@,
            (Err(me), Err(ee)) => me == ee,
            _ => false,
        }),
{
    match current {
        Option::None => Ok((false, Vec::new())),
        Option::Some(fi) => {
            if matches!(fi.filetype, FileType::File) || matches!(fi.filetype, FileType::Link) {
                let mut ops: Vec<FsOp> = Vec::new();
                ops.push(FsOp::RemoveEntry);
                Ok((true, ops))
            } else {
                Err(EnsureError::UnexpectedType { found: fi.filetype })
            }
        },
    }
}

/// Reconciliation reaches a fixed point: metadata that was just fixed is
/// clean, and fixing it again changes nothing and issues nothing.
pub proof fn lemma_meta_fixed_clean(fi: FileInfo, owner: u32, group: u32, mode: u32)
    ensures
        meta_clean(meta_fixed(fi, owner, group, mode), owner, group, mode),
        meta_fixed(meta_fixed(fi, owner, group, mode), owner, group, mode) == meta_fixed(
            fi,
            owner,
            group,
            mode,
        ),
        meta_ops(meta_fixed(fi, owner, group, mode), owner, group, mode) =~= Seq::<FsOp>::empty(),
{
}

/// Ensuring a directory is idempotent: a second run on the state the first
/// run produced reports no work, changes nothing, and issues no operations.
pub proof fn lemma_directory_idempotent(current: Option<FileInfo>, owner: u32, group: u32, mode: u32)
    ensures
        (match directory_model(current, owner, group, mode) {
            Ok(m) => {
                let again = directory_model(Option::Some(m.0), owner, group, mode);
                &&& again is Ok
                &&& again->Ok_0.0 == m.0
                &&& again->Ok_0.1 == false
                &&& again->Ok_0.2 =~= Seq::<FsOp>::empty()
            },
            Err(_) => true,
        }),
{
    if let Ok(m) = directory_model(current, owner, group, mode) {
        match current {
            Option::None => {
                lemma_meta_fixed_clean(m.0, owner, group, mode);
                assert(meta_fixed(m.0, owner, group, mode) == m.0);
            },
            Option::Some(fi) => {
                lemma_meta_fixed_clean(fi, owner, group, mode);
            },
        }
    }
}

/// Ensuring a file is idempotent: a second run on the state the first run
/// produced reports no work, changes nothing, and issues no operations.
pub proof fn lemma_file_idempotent(
    current: Option<EntryV>,
    desired: Seq<u8>,
    owner: u32,
    group: u32,
    mode: u32,
    create: Create,
)
    ensures
        (match file_model(current, desired, owner, group, mode, create) {
            Ok(m) => {
                let again = file_model(Option::Some(m.0), desired, owner, group, mode, create);
                &&& again is Ok
                &&& again->Ok_0.0 == m.0
                &&& again->Ok_0.1 == false
                &&& again->Ok_0.2 =~= Seq::<FsOp>::empty()
            },
            Err(_) => true,
        }),
{
    if let Ok(m) = file_model(current, desired, owner, group, mode, create) {
        match current {
            Option::None => {
                lemma_meta_fixed_clean(m.0.info, owner, group, mode);
            },
            Option::Some(e) => {
                lemma_meta_fixed_clean(e.info, owner, group, mode);
                lemma_meta_fixed_clean(m.0.info, owner, group, mode);
            },
        }
    }
}

/// Ensuring a symbolic link is idempotent: a second run on the state the
/// first run produced reports no work, changes nothing, and issues no
/// operations.
pub proof fn lemma_symlink_idempotent(current: Option<FileInfo>, target: String, owner: u32, group: u32)
    ensures
        (match symlink_model(current, target, owner, group) {
            Ok(m) => {
                let again = symlink_model(Option::Some(m.0), target, owner, group);
                &&& again is Ok
                &&& again->Ok_0.0 == m.0
                &&& again->Ok_0.1 == false
                &&& again->Ok_0.2 =~= Seq::<FsOp>::empty()
            },
            Err(_) => true,
        }),
{
    if let Ok(m) = symlink_model(current, target, owner, group) {
        match current {
            Option::None => {
                lemma_meta_fixed_clean(m.0, owner, group, 0);
            },
            Option::Some(fi) => {
                if link_target_ok(fi, target) {
                    lemma_meta_fixed_clean(fi, owner, group, 0);
                } else {
                    lemma_meta_fixed_clean(m.0, owner, group, 0);
                }
            },
        }
    }
}

/// Removal is idempotent: after a removal the path is absent, and removing
/// an absent path reports no work and issues no operations.
pub proof fn lemma_removed_idempotent()
    ensures
        removed_model(Option::None) == Ok::<(bool, Seq<FsOp>), EnsureError>(
            (false, Seq::<FsOp>::empty()),
        ),
{
}


/// The digest algorithm used for content corruption checking, or none.
#[derive(Debug, Clone, Copy, PartialEq, Eq, Structural)]
pub enum HashType {
    SHA1,
    MD5,
    NoHash,
}

/// What the MD5 digest of a byte sequence is: a function of the bytes alone.
pub uninterp spec fn md5_of(data: Seq<u8>) -> Seq<u8>;

/// What the SHA-1 digest of a byte sequence is: a function of the bytes
/// alone.
pub uninterp spec fn sha1_of(data: Seq<u8>) -> Seq<u8>;

/// Relies on the MD5 implementation behind the `digest` interface: the
/// digest depends on the input bytes alone and is 16 bytes long.
#[verifier::external_body]
fn md5_digest(data: &Vec<u8>) -> (r: Vec<u8>)
    ensures
        r@ == md5_of(data@),
        r@.len() == 16,
{
    <md5::Md5 as digest::Digest>::digest(data.as_slice()).to_vec()
}

/// Relies on the SHA-1 implementation behind the `digest` interface: the
/// digest depends on the input bytes alone and is 20 bytes long.
#[verifier::external_body]
fn sha1_digest(data: &Vec<u8>) -> (r: Vec<u8>)
    ensures
        r@ == sha1_of(data@),
        r@.len() == 20,
{
    <sha1::Sha1 as digest::Digest>::digest(data.as_slice()).to_vec()
}

/// The lowercase character of one hexadecimal digit.
pub open spec fn spec_hex_char(d: nat) -> char {
    if d == 0 {
        '0'
    } else if d == 1 {
        '1'
    } else if d == 2 {
        '2'
    } else if d == 3 {
        '3'
    } else if d == 4 {
        '4'
    } else if d == 5 {
        '5'
    } else if d == 6 {
        '6'
    } else if d == 7 {
        '7'
    } else if d == 8 {
        '8'
    } else if d == 9 {
        '9'
    } else if d == 10 {
        'a'
    } else if d == 11 {
        'b'
    } else if d == 12 {
        'c'
    } else if d == 13 {
        'd'
    } else if d == 14 {
        'e'
    } else {
        'f'
    }
}

/// The lowercase hexadecimal rendering of a byte sequence: two digits per
/// byte, in order.
pub open spec fn spec_hex(bytes: Seq<u8>) -> Seq<char>
    decreases bytes.len(),
{
    if bytes.len() == 0 {
        Seq::empty()
    } else {
        spec_hex(bytes.drop_last()) + seq![
            spec_hex_char((bytes.last() / 16) as nat),
            spec_hex_char((bytes.last() % 16) as nat),
        ]
    }
}

fn hex_char(d: u8) -> (r: char)
    requires
        d < 16,
    ensures
        r == spec_hex_char(d as nat),
{
    if d == 0 {
        '0'
    } else if d == 1 {
        '1'
    } else if d == 2 {
        '2'
    } else if d == 3 {
        '3'
    } else if d == 4 {
        '4'
    } else if d == 5 {
        '5'
    } else if d == 6 {
        '6'
    } else if d == 7 {
        '7'
    } else if d == 8 {
        '8'
    } else if d == 9 {
        '9'
    } else if d == 10 {
        'a'
    } else if d == 11 {
        'b'
    } else if d == 12 {
        'c'
    } else if d == 13 {
        'd'
    } else if d == 14 {
        'e'
    } else {
        'f'
    }
}

fn hex_chars(bytes: &Vec<u8>) -> (r: Vec<char>)
    ensures
        r@ == spec_hex(bytes@),
{
    let mut out: Vec<char> = Vec::new();
    let n = bytes.len();
    let mut i: usize = 0;
    while i < n
        invariant
            i <= n,
            n == bytes@.len(),
            out@ == spec_hex(bytes@.subrange(0, i as int)),
        decreases n - i,
    {
        let b = bytes[i];
        out.push(hex_char(b / 16));
        out.push(hex_char(b % 16));
        i = i + 1;
        proof {
            assert(bytes@.subrange(0, i as int).drop_last() =~= bytes@.subrange(0, i - 1));
            assert(out@ =~= spec_hex(bytes@.subrange(0, i as int)));
        }
    }
    proof {
        assert(bytes@.subrange(0, n as int) =~= bytes@);
    }
    out
}

/// Two characters per byte: the hexadecimal text of a byte sequence is twice
/// as long as the sequence.
pub proof fn lemma_spec_hex_len(bytes: Seq<u8>)
    ensures
        spec_hex(bytes).len() == 2 * bytes.len(),
    decreases bytes.len(),
{
    if bytes.len() > 0 {
        lemma_spec_hex_len(bytes.drop_last());
    }
}

/// The textual digest of content under a hash selection: the lowercase
/// hexadecimal digest, or the empty string for the no-hash sentinel.
pub open spec fn hash_content(data: Seq<u8>, t: HashType) -> Seq<char> {
    match t {
        HashType::NoHash => Seq::empty(),
        HashType::MD5 => spec_hex(md5_of(data)),
        HashType::SHA1 => spec_hex(sha1_of(data)),
    }
}

/// Hash file content for corruption checking: the selected digest in
/// lowercase hexadecimal, or the empty string when no hash was requested.
pub fn hash_file(content: &Vec<u8>, hash_type: &HashType) -> (r: String)
    ensures
        r@ == hash_content(content@, *hash_type),
        *hash_type == HashType::NoHash ==> r@.len() == 0,
        *hash_type == HashType::MD5 ==> r@.len() == 32,
        *hash_type == HashType::SHA1 ==> r@.len() == 40,
{
    match hash_type {
        HashType::NoHash => String::new(),
        HashType::MD5 => {
            let d = md5_digest(content);
            proof {
                lemma_spec_hex_len(md5_of(content@));
            }
            crate::strutil::chars_to_string(&hex_chars(&d))
        },
        HashType::SHA1 => {
            let d = sha1_digest(content);
            proof {
                lemma_spec_hex_len(sha1_of(content@));
            }
            crate::strutil::chars_to_string(&hex_chars(&d))
        },
    }
}

} // verus!
