//! Where a sidecar and its backup live, and how a write treats the backup.
use vstd::prelude::*;
use vstd::string::*;

verus! {

/// The sidecar of the image `file_name` in directory `dir`.
pub open spec fn sidecar_path_of(dir: Seq<char>, file_name: Seq<char>) -> Seq<char> {
    dir + "/NKSC_PARAM/"@ + file_name + ".nksc"@
}

/// The sidecar path for an image: `<dir>/NKSC_PARAM/<file name>.nksc`.
pub fn sidecar_path(dir: &str, file_name: &str) -> (r: String)
    ensures
        r@ == sidecar_path_of(dir@, file_name@),
{
    let mut out = String::new();
    out.append(dir);
    out.append("/NKSC_PARAM/");
    out.append(file_name);
    out.append(".nksc");
    assert(out@ =~= sidecar_path_of(dir@, file_name@));
    out
}

/// The backup of a sidecar: its path with `.original` appended.
pub fn backup_path(sidecar: &str) -> (r: String)
    ensures
        r@ == sidecar@ + ".original"@,
{
    let mut out = String::new();
    out.append(sidecar);
    out.append(".original");
    assert(out@ =~= sidecar@ + ".original"@);
    out
}

/// A sidecar's content and its backup's, if there is one.
pub struct SidecarFiles {
    pub sidecar: Seq<char>,
    pub backup: Option<Seq<char>>,
}

/// The files after writing `new_text`: with backups enabled and none made
/// yet, the content before the write becomes the backup; an existing backup
/// is never replaced.
pub open spec fn after_write(f: SidecarFiles, new_text: Seq<char>, backup_enabled: bool) -> SidecarFiles {
    SidecarFiles {
        sidecar: new_text,
        backup: if backup_enabled && f.backup is None {
            Some(f.sidecar)
        } else {
            f.backup
        },
    }
}

/// Whether to move the sidecar to its backup path before writing: the
/// condition under which [`after_write`] makes a backup.
pub fn should_back_up(backup_enabled: bool, backup_exists: bool) -> (r: bool)
    ensures
        r == (backup_enabled && !backup_exists),
{
    backup_enabled && !backup_exists
}

/// Two writes with backups enabled, starting with no backup, leave exactly
/// one backup, holding the content from before the first write.
pub proof fn lemma_backup_once(original: Seq<char>, first: Seq<char>, second: Seq<char>)
    ensures
        ({
            let once = after_write(SidecarFiles { sidecar: original, backup: None }, first, true);
            let twice = after_write(once, second, true);
            &&& once.backup == Some(original)
            &&& twice.backup == Some(original)
            &&& twice.sidecar == second
        }),
{
}

/// Once made, a backup survives every later write.
pub proof fn lemma_backup_kept(f: SidecarFiles, new_text: Seq<char>, backup_enabled: bool)
    requires
        f.backup is Some,
    ensures
        after_write(f, new_text, backup_enabled).backup == f.backup,
{
}

} // verus!
