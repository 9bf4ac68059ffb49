//! Keys, protection domains and access rights of memory regions.
use vstd::prelude::*;
use vstd::std_specs::ops::BitOrSpecImpl;

verus! {

/// Names a region on the side that owns it.
#[derive(Debug, Clone, Copy, PartialEq, Eq, Hash, Structural)]
pub struct LKey(pub u32);

/// Names a region to the remote side.
#[derive(Debug, Clone, Copy, PartialEq, Eq, Hash, Structural)]
pub struct RKey(pub u32);

/// The scope in which keys are valid.
#[derive(Debug, Clone, Copy, PartialEq, Eq, Hash, Structural)]
pub struct ProtectionDomain(pub u32);

/// What may be done to a region.
#[derive(Debug, Clone, Copy, PartialEq, Eq, Hash, Structural)]
pub struct AccessFlags {
    pub local_write: bool,
    pub remote_write: bool,
    pub remote_read: bool,
    pub remote_atomic: bool,
}

impl AccessFlags {
    /// No right at all.
    pub open spec fn spec_none() -> AccessFlags {
        AccessFlags {
            local_write: false,
            remote_write: false,
            remote_read: false,
            remote_atomic: false,
        }
    }

    /// The right to write locally, alone.
    pub fn local_write() -> (r: AccessFlags)
        ensures
            r == (AccessFlags { local_write: true, ..AccessFlags::spec_none() }),
    {
        AccessFlags {
            local_write: true,
            remote_write: false,
            remote_read: false,
            remote_atomic: false,
        }
    }

    /// The right of the remote side to write, alone.
    pub fn remote_write() -> (r: AccessFlags)
        ensures
            r == (AccessFlags { remote_write: true, ..AccessFlags::spec_none() }),
    {
        AccessFlags {
            local_write: false,
            remote_write: true,
            remote_read: false,
            remote_atomic: false,
        }
    }

    /// The right of the remote side to read, alone.
    pub fn remote_read() -> (r: AccessFlags)
        ensures
            r == (AccessFlags { remote_read: true, ..AccessFlags::spec_none() }),
    {
        AccessFlags {
            local_write: false,
            remote_write: false,
            remote_read: true,
            remote_atomic: false,
        }
    }

    /// The right of the remote side to atomic operations, alone.
    pub fn remote_atomic() -> (r: AccessFlags)
        ensures
            r == (AccessFlags { remote_atomic: true, ..AccessFlags::spec_none() }),
    {
        AccessFlags {
            local_write: false,
            remote_write: false,
            remote_read: false,
            remote_atomic: true,
        }
    }
}

impl std::ops::BitOr for AccessFlags {
    type Output = AccessFlags;

    fn bitor(self, rhs: AccessFlags) -> (r: AccessFlags) {
        AccessFlags {
            local_write: self.local_write || rhs.local_write,
            remote_write: self.remote_write || rhs.remote_write,
            remote_read: self.remote_read || rhs.remote_read,
            remote_atomic: self.remote_atomic || rhs.remote_atomic,
        }
    }
}

impl BitOrSpecImpl for AccessFlags {
    open spec fn obeys_bitor_spec() -> bool {
        true
    }

    open spec fn bitor_req(self, rhs: AccessFlags) -> bool {
        true
    }

    open spec fn bitor_spec(self, rhs: AccessFlags) -> AccessFlags {
        AccessFlags {
            local_write: self.local_write || rhs.local_write,
            remote_write: self.remote_write || rhs.remote_write,
            remote_read: self.remote_read || rhs.remote_read,
            remote_atomic: self.remote_atomic || rhs.remote_atomic,
        }
    }
}

/// Joined rights allow what either of them allows; no right allows nothing.
pub proof fn law_rights_join(a: AccessFlags, b: AccessFlags)
    ensures
        ({
            let both = vstd::std_specs::ops::BitOrSpec::bitor_spec(a, b);
            &&& both.local_write <==> a.local_write || b.local_write
            &&& both.remote_write <==> a.remote_write || b.remote_write
            &&& both.remote_read <==> a.remote_read || b.remote_read
            &&& both.remote_atomic <==> a.remote_atomic || b.remote_atomic
        }),
        ({
            let none = AccessFlags::spec_none();
            !none.local_write && !none.remote_write && !none.remote_read && !none.remote_atomic
        }),
{
}

/// Each of the four basic rights allows one thing alone.
pub proof fn law_basic_rights(
    local_write: AccessFlags,
    remote_write: AccessFlags,
    remote_read: AccessFlags,
    remote_atomic: AccessFlags,
)
    requires
        call_ensures(AccessFlags::local_write, (), local_write),
        call_ensures(AccessFlags::remote_write, (), remote_write),
        call_ensures(AccessFlags::remote_read, (), remote_read),
        call_ensures(AccessFlags::remote_atomic, (), remote_atomic),
    ensures
        local_write == (AccessFlags {
            local_write: true,
            remote_write: false,
            remote_read: false,
            remote_atomic: false,
        }),
        remote_write == (AccessFlags {
            local_write: false,
            remote_write: true,
            remote_read: false,
            remote_atomic: false,
        }),
        remote_read == (AccessFlags {
            local_write: false,
            remote_write: false,
            remote_read: true,
            remote_atomic: false,
        }),
        remote_atomic == (AccessFlags {
            local_write: false,
            remote_write: false,
            remote_read: false,
            remote_atomic: true,
        }),
{
}

} // verus!
