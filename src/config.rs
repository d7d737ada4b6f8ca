//! Mount configuration and the options a mount is made with.
use vstd::prelude::*;

verus! {

/// Configuration for mounting a remote directory over SSH.
pub struct SshFsConfig {
    /// Address of the SSH server, `host:port`.
    pub addr: String,
    pub username: String,
    pub password: String,
    /// The remote directory to mount.
    pub path: String,
    /// The local directory to mount on.
    pub mountpoint: String,
    /// Unmount automatically when the process exits.
    pub auto_unmount: bool,
    /// Let root access the mount.
    pub allow_root: bool,
}

/// The name under which mounts appear.
pub const FS_NAME: &'static str = "sshfs-rs";

/// One option of a mount.
#[derive(Debug, Clone, Copy, PartialEq, Eq, Structural)]
pub enum MountOpt {
    ReadWrite,
    FsName,
    AutoUnmount,
    AllowRoot,
}

/// The options of a mount: read-write under the file system name, then auto-unmount and
/// root access as configured.
pub open spec fn mount_options_spec(auto_unmount: bool, allow_root: bool) -> Seq<MountOpt> {
    let base = seq![MountOpt::ReadWrite, MountOpt::FsName];
    let with_unmount = if auto_unmount { base.push(MountOpt::AutoUnmount) } else { base };
    if allow_root { with_unmount.push(MountOpt::AllowRoot) } else { with_unmount }
}

/// The options with which `config` is mounted.
pub fn mount_options(config: &SshFsConfig) -> (r: Vec<MountOpt>)
    ensures
        r@ == mount_options_spec(config.auto_unmount, config.allow_root),
{
    let mut options: Vec<MountOpt> = Vec::new();
    options.push(MountOpt::ReadWrite);
    options.push(MountOpt::FsName);
    if config.auto_unmount {
        options.push(MountOpt::AutoUnmount);
    }
    if config.allow_root {
        options.push(MountOpt::AllowRoot);
    }
    assert(options@ =~= mount_options_spec(config.auto_unmount, config.allow_root));
    options
}

} // verus!
