//! Configuration snapshots and permission containers.

use vstd::prelude::*;

verus! {

/// The type-library variant a root set is checked against.
#[derive(Clone, Copy, Debug, PartialEq, Eq, Structural)]
pub enum TsTypeLib {
    Window,
    Worker,
}

/// Whole-program type checking mode.
#[derive(Clone, Copy, Debug, PartialEq, Eq, Structural)]
pub enum TypeCheckMode {
    /// Checking is disabled.
    Disabled,
    /// Only local modules are checked.
    Local,
    /// Every module is checked.
    All,
}

/// Whether an import is resolved for a static or a dynamic import site.
#[derive(Clone, Copy, Debug, PartialEq, Eq, Structural)]
pub enum ResolutionKind {
    MainModule,
    Import,
    DynamicImport,
}

/// An immutable snapshot of execution permissions, cloned per resolution or
/// load call; never shared mutable state.
#[derive(Clone, Copy, Debug, PartialEq, Eq, Structural)]
pub struct PermissionsContainer {
    /// Whether the snapshot grants every permission.
    pub allows_all: bool,
}

impl PermissionsContainer {
    /// A snapshot granting every permission.
    pub fn allow_all() -> (r: PermissionsContainer)
        ensures
            r.allows_all,
    {
        PermissionsContainer { allows_all: true }
    }
}

/// The permission snapshot a call uses: the dynamic-import one for dynamic
/// calls, the root one otherwise.
pub open spec fn spec_selected_permissions(
    is_dynamic: bool,
    root: PermissionsContainer,
    dynamic: PermissionsContainer,
) -> PermissionsContainer {
    if is_dynamic {
        dynamic
    } else {
        root
    }
}

/// Clones the permission snapshot that matches the import site.
pub fn select_permissions(
    is_dynamic: bool,
    root: &PermissionsContainer,
    dynamic: &PermissionsContainer,
) -> (r: PermissionsContainer)
    ensures
        r == spec_selected_permissions(is_dynamic, *root, *dynamic),
{
    if is_dynamic {
        *dynamic
    } else {
        *root
    }
}

} // verus!
