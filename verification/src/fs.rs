//! File-kind and permission bits, and the computation of open flags.
//!
//! Plain file reading and writing is an external collaborator of this
//! library; what lives here is the pure logic around it: which kind a mode
//! word denotes, how permission bits answer read-only questions, and which
//! flag word an `OpenOptions` builder hands to the open primitive.

use vstd::prelude::*;

verus! {

/// Open for reading.
pub const O_RDONLY: usize = 0x0001_0000;

/// Open for writing.
pub const O_WRONLY: usize = 0x0002_0000;

/// Open for reading and writing.
pub const O_RDWR: usize = 0x0003_0000;

/// Append on each write.
pub const O_APPEND: usize = 0x0008_0000;

/// Create the file if it does not exist.
pub const O_CREAT: usize = 0x0200_0000;

/// Truncate the file on open.
pub const O_TRUNC: usize = 0x0400_0000;

/// The mode bit marking a directory.
pub const MODE_DIR: u16 = 0x4000;

/// The mode bit marking a regular file.
pub const MODE_FILE: u16 = 0x8000;

/// The permission bits of a mode word.
pub const MODE_PERM: u16 = 0x0FFF;

/// An open resource, the sole owner of exactly one descriptor.
pub struct File {
    fd: usize,
}

impl View for File {
    type V = usize;

    closed spec fn view(&self) -> usize {
        self.fd
    }
}

impl File {
    /// Adopt the descriptor an open or duplicate returned.
    pub fn from_fd(fd: usize) -> (r: File)
        ensures
            r@ == fd,
    {
        File { fd }
    }

    pub fn fd(&self) -> (r: usize)
        ensures
            r == self@,
    {
        self.fd
    }
}

/// The kind a stat mode word denotes.
#[derive(Clone, Copy, PartialEq, Eq, Structural, Debug)]
pub struct FileType {
    dir: bool,
    file: bool,
}

impl FileType {
    pub closed spec fn spec_dir(&self) -> bool {
        self.dir
    }

    pub closed spec fn spec_file(&self) -> bool {
        self.file
    }

    /// Read the kind out of a stat mode word.
    pub fn from_mode(mode: u16) -> (r: FileType)
        ensures
            r.spec_dir() == (mode & MODE_DIR == MODE_DIR),
            r.spec_file() == (mode & MODE_FILE == MODE_FILE),
    {
        FileType { dir: mode & MODE_DIR == MODE_DIR, file: mode & MODE_FILE == MODE_FILE }
    }

    pub fn is_dir(&self) -> (r: bool)
        ensures
            r == self.spec_dir(),
    {
        self.dir
    }

    pub fn is_file(&self) -> (r: bool)
        ensures
            r == self.spec_file(),
    {
        self.file
    }

    /// Symbolic links are not supported by this layer.
    pub fn is_symlink(&self) -> (r: bool)
        ensures
            r == false,
    {
        false
    }
}

/// The device-kind questions of the wider interface; nothing in this layer
/// is a device, a fifo or a socket file.
pub trait FileTypeExt {
    fn is_block_device(&self) -> (r: bool)
        ensures
            r == false,
    ;

    fn is_char_device(&self) -> (r: bool)
        ensures
            r == false,
    ;

    fn is_fifo(&self) -> (r: bool)
        ensures
            r == false,
    ;

    fn is_socket(&self) -> (r: bool)
        ensures
            r == false,
    ;
}

impl FileTypeExt for FileType {
    fn is_block_device(&self) -> bool {
        false
    }

    fn is_char_device(&self) -> bool {
        false
    }

    fn is_fifo(&self) -> bool {
        false
    }

    fn is_socket(&self) -> bool {
        false
    }
}

/// Permission bits of a resource.
#[derive(Clone, Copy, PartialEq, Eq, Structural, Debug)]
pub struct Permissions {
    mode: u16,
}

impl Permissions {
    pub closed spec fn spec_mode(&self) -> u16 {
        self.mode
    }

    /// Read-only exactly when every write bit is clear.
    pub fn readonly(&self) -> (r: bool)
        ensures
            r == (self.spec_mode() & 0o222 == 0),
    {
        self.mode & 0o222 == 0
    }

    /// Clear or set the write bits.
    pub fn set_readonly(&mut self, readonly: bool)
        ensures
            readonly ==> final(self).spec_mode() == old(self).spec_mode() & !0o222u16,
            !readonly ==> final(self).spec_mode() == old(self).spec_mode() | 0o222u16,
    {
        if readonly {
            self.mode = self.mode & !0o222u16;
        } else {
            self.mode = self.mode | 0o222u16;
        }
    }
}

/// A builder for the flag word handed to the open primitive.
#[derive(Clone, Copy, PartialEq, Eq, Structural, Debug)]
pub struct OpenOptions {
    pub read: bool,
    pub write: bool,
    pub append: bool,
    pub create: bool,
    pub truncate: bool,
    pub mode: u16,
}

/// The flag word an options builder denotes: an access mode from the read
/// and write bits, the append, create and truncate flags, and the requested
/// permission bits of a created file.
pub open spec fn spec_open_flags(o: OpenOptions) -> usize {
    (if o.read && o.write {
        O_RDWR
    } else if o.read {
        O_RDONLY
    } else if o.write {
        O_WRONLY
    } else {
        0
    }) | (if o.append {
        O_APPEND
    } else {
        0
    }) | (if o.create {
        O_CREAT
    } else {
        0
    }) | (if o.truncate {
        O_TRUNC
    } else {
        0
    }) | ((o.mode & MODE_PERM) as usize)
}

impl OpenOptions {
    /// Everything off.
    pub fn new() -> (r: OpenOptions)
        ensures
            r == (OpenOptions {
                read: false,
                write: false,
                append: false,
                create: false,
                truncate: false,
                mode: 0,
            }),
    {
        OpenOptions { read: false, write: false, append: false, create: false, truncate: false, mode: 0 }
    }

    pub fn read(&mut self, read: bool)
        ensures
            *final(self) == (OpenOptions { read, ..*old(self) }),
    {
        self.read = read;
    }

    pub fn write(&mut self, write: bool)
        ensures
            *final(self) == (OpenOptions { write, ..*old(self) }),
    {
        self.write = write;
    }

    pub fn append(&mut self, append: bool)
        ensures
            *final(self) == (OpenOptions { append, ..*old(self) }),
    {
        self.append = append;
    }

    pub fn create(&mut self, create: bool)
        ensures
            *final(self) == (OpenOptions { create, ..*old(self) }),
    {
        self.create = create;
    }

    pub fn truncate(&mut self, truncate: bool)
        ensures
            *final(self) == (OpenOptions { truncate, ..*old(self) }),
    {
        self.truncate = truncate;
    }

    /// The flag word these options hand to the open primitive.
    pub fn flags(&self) -> (r: usize)
        ensures
            r == spec_open_flags(*self),
    {
        let access: usize = if self.read && self.write {
            O_RDWR
        } else if self.read {
            O_RDONLY
        } else if self.write {
            O_WRONLY
        } else {
            0
        };
        let append: usize = if self.append {
            O_APPEND
        } else {
            0
        };
        let create: usize = if self.create {
            O_CREAT
        } else {
            0
        };
        let truncate: usize = if self.truncate {
            O_TRUNC
        } else {
            0
        };
        access | append | create | truncate | ((self.mode & MODE_PERM) as usize)
    }
}

/// The permission hooks of the wider interface, over the full mode word.
pub trait PermissionsExt {
    fn mode(&self) -> u32;

    fn set_mode(&mut self, mode: u32);

    fn from_mode(mode: u32) -> Self where Self: Sized;
}

impl PermissionsExt for Permissions {
    fn mode(&self) -> (r: u32)
        ensures
            r == self.spec_mode() as u32,
    {
        self.mode as u32
    }

    fn set_mode(&mut self, mode: u32)
        ensures
            final(self).spec_mode() == mode as u16,
    {
        self.mode = mode as u16;
    }

    fn from_mode(mode: u32) -> (r: Permissions)
        ensures
            r.spec_mode() == mode as u16,
    {
        Permissions { mode: mode as u16 }
    }
}

/// The permission hook of the wider interface: the low bits of `mode` are
/// kept for the file created on open.
pub trait OpenOptionsExt {
    fn mode(&mut self, mode: u32);
}

impl OpenOptionsExt for OpenOptions {
    fn mode(&mut self, mode: u32)
        ensures
            *final(self) == (OpenOptions { mode: mode as u16, ..*old(self) }),
    {
        self.mode = mode as u16;
    }
}

} // verus!
