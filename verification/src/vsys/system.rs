//! The virtual system as a whole: a filesystem table, a module loader and
//! the permissions.

use vstd::prelude::*;
use crate::vsys::fs::FsVTable;
use crate::vsys::module_loader::ModuleLoaderVTable;
use crate::vsys::permissions::Permissions;

verus! {

/// Everything that the runtime consults before it touches the system.
#[derive(Debug, Clone)]
pub struct Vsys {
    /// Filesystem operations vtable
    pub fs: FsVTable,
    /// Module loader/resolver vtable
    pub module_loader: ModuleLoaderVTable,
    /// Permissions configuration
    pub permissions: Permissions,
}

impl Default for Vsys {
    /// The host's filesystem and loader, and permissions that refuse
    /// nothing.
    fn default() -> (r: Self)
        ensures
            r.fs.reads_from_host(),
            r.module_loader == ModuleLoaderVTable::Host,
            r.permissions.stdio,
    {
        Vsys {
            fs: FsVTable::default(),
            module_loader: ModuleLoaderVTable::Host,
            permissions: Permissions::allow_all(),
        }
    }
}

impl Vsys {
    /// The host's filesystem and loader, and permissions that refuse
    /// nothing.
    pub fn new() -> (r: Self)
        ensures
            r.fs.reads_from_host(),
            r.module_loader == ModuleLoaderVTable::Host,
            r.permissions.stdio,
    {
        Vsys {
            fs: FsVTable::default(),
            module_loader: ModuleLoaderVTable::Host,
            permissions: Permissions::allow_all(),
        }
    }

    /// A builder with nothing chosen yet.
    pub fn builder() -> (r: VsysBuilder)
        ensures
            r.fs is None,
            r.module_loader is None,
            r.permissions is None,
    {
        VsysBuilder { fs: None, module_loader: None, permissions: None }
    }

    /// A sandbox: a filesystem table that refuses everything, and
    /// permissions that allow nothing.
    pub fn sandboxed() -> (r: Self)
        ensures
            r.fs.read is Deny && r.fs.write is Deny && r.fs.exists is Deny && r.fs.is_file
                is Deny,
            r.module_loader == ModuleLoaderVTable::Host,
            !r.permissions.stdio,
            r.permissions.fs.is_whitelist() && r.permissions.fs.items().len() == 0,
            r.permissions.net.is_whitelist() && r.permissions.net.items().len() == 0,
            r.permissions.env.is_whitelist() && r.permissions.env.items().len() == 0,
    {
        Vsys {
            fs: FsVTable::deny_all(),
            module_loader: ModuleLoaderVTable::Host,
            permissions: Permissions::deny_all(),
        }
    }

    /// The filesystem table.
    pub fn fs(&self) -> (r: &FsVTable)
        ensures
            *r == self.fs,
    {
        &self.fs
    }

    /// The module loader.
    pub fn module_loader(&self) -> (r: &ModuleLoaderVTable)
        ensures
            *r == self.module_loader,
    {
        &self.module_loader
    }

    /// The permissions.
    pub fn permissions(&self) -> (r: &Permissions)
        ensures
            *r == self.permissions,
    {
        &self.permissions
    }
}

/// Puts a virtual system together, part by part.
pub struct VsysBuilder {
    pub fs: Option<FsVTable>,
    pub module_loader: Option<ModuleLoaderVTable>,
    pub permissions: Option<Permissions>,
}

impl VsysBuilder {
    /// Chooses the filesystem table.
    pub fn fs(self, fs: FsVTable) -> (r: Self)
        ensures
            r.fs == Some(fs),
            r.module_loader == self.module_loader,
            r.permissions == self.permissions,
    {
        VsysBuilder { fs: Some(fs), module_loader: self.module_loader, permissions: self.permissions }
    }

    /// Chooses the module loader.
    pub fn module_loader(self, loader: ModuleLoaderVTable) -> (r: Self)
        ensures
            r.fs == self.fs,
            r.module_loader == Some(loader),
            r.permissions == self.permissions,
    {
        VsysBuilder { fs: self.fs, module_loader: Some(loader), permissions: self.permissions }
    }

    /// Chooses the permissions.
    pub fn permissions(self, permissions: Permissions) -> (r: Self)
        ensures
            r.fs == self.fs,
            r.module_loader == self.module_loader,
            r.permissions == Some(permissions),
    {
        VsysBuilder { fs: self.fs, module_loader: self.module_loader, permissions: Some(permissions) }
    }

    /// The system with the parts that were chosen; for the others the
    /// host's filesystem and loader, and permissions that refuse nothing.
    pub fn build(self) -> (r: Vsys)
        ensures
            self.fs matches Some(fs) ==> r.fs == fs,
            self.fs is None ==> r.fs.reads_from_host(),
            r.module_loader == (match self.module_loader {
                Some(loader) => loader,
                None => ModuleLoaderVTable::Host,
            }),
            self.permissions matches Some(permissions) ==> r.permissions == permissions,
            self.permissions is None ==> r.permissions.stdio,
    {
        Vsys {
            fs: match self.fs {
                Some(fs) => fs,
                None => FsVTable::default(),
            },
            module_loader: match self.module_loader {
                Some(loader) => loader,
                None => ModuleLoaderVTable::Host,
            },
            permissions: match self.permissions {
                Some(permissions) => permissions,
                None => Permissions::allow_all(),
            },
        }
    }
}

} // verus!
