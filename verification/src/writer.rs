//! The safety policy guarding the external resolver-configuration helper:
//! the helper binary's posture is checked before every invocation, and a
//! violation fails closed, so no unsafe helper is ever spawned.

use vstd::prelude::*;

verus! {

/// The configuration writer's target: the external helper program that
/// rewrites the host's resolver configuration. Only the safety policy lives
/// here; spawning the helper is the caller's concern.
pub struct Resolvconf {
    /// Filesystem path of the helper binary.
    pub path: String,
}

/// Error: the helper binary's ownership or permission posture is unsafe, so
/// the mutation was refused before any subprocess was spawned.
pub enum UnsafeHelper {
    /// The binary is writable by its group or by others.
    WritableByOthers { mode: u32 },
    /// The binary is owned neither by the superuser nor by the invoking user.
    NotOwned { file_uid: u32, current_uid: u32 },
}

/// True iff a helper binary with this posture may be invoked: it is writable
/// neither by its group nor by others, and it is owned by the superuser or
/// by the invoking user.
pub open spec fn helper_safe(mode: u32, file_uid: u32, current_uid: u32) -> bool {
    mode & 0o020 == 0 && mode & 0o002 == 0 && (file_uid == 0 || file_uid == current_uid)
}

/// Decides whether the helper binary may be invoked, given its permission
/// mode, its owning uid, and the invoking user's uid. Every call path into
/// the helper must pass this check first, on fresh metadata.
pub fn check_permissions(mode: u32, file_uid: u32, current_uid: u32) -> (r: Result<
    (),
    UnsafeHelper,
>)
    ensures
        r is Ok <==> helper_safe(mode, file_uid, current_uid),
        match r {
            Ok(_) => true,
            Err(UnsafeHelper::WritableByOthers { mode: m }) => m == mode && (mode & 0o020 != 0
                || mode & 0o002 != 0),
            Err(UnsafeHelper::NotOwned { file_uid: f, current_uid: c }) => f == file_uid && c
                == current_uid && mode & 0o020 == 0 && mode & 0o002 == 0 && file_uid != 0
                && file_uid != current_uid,
        },
{
    if mode & 0o020 != 0 || mode & 0o002 != 0 {
        return Err(UnsafeHelper::WritableByOthers { mode });
    }
    if file_uid != 0 && file_uid != current_uid {
        return Err(UnsafeHelper::NotOwned { file_uid, current_uid });
    }
    Ok(())
}

impl Resolvconf {
    /// A writer that will invoke the helper at the given path.
    pub fn with_path(path: String) -> (r: Resolvconf)
        ensures
            r.path@ == path@,
    {
        Resolvconf { path }
    }
}

/// A helper binary writable by its group is refused, whatever its owner.
pub proof fn lemma_group_writable_rejected(mode: u32, file_uid: u32, current_uid: u32)
    requires
        mode & 0o020 != 0,
    ensures
        !helper_safe(mode, file_uid, current_uid),
{
}

/// A helper binary writable by others is refused, whatever its owner.
pub proof fn lemma_world_writable_rejected(mode: u32, file_uid: u32, current_uid: u32)
    requires
        mode & 0o002 != 0,
    ensures
        !helper_safe(mode, file_uid, current_uid),
{
}

} // verus!
