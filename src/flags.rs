use vstd::prelude::*;

verus! {

/// Options of a search: which items, whether to unlock them, whether to
/// fetch their secrets at once.
#[derive(Clone, Copy, Debug, PartialEq, Eq, Structural)]
pub struct SearchFlags {
    pub all: bool,
    pub unlock: bool,
    pub load_secrets: bool,
}

/// Options of an item's creation.
#[derive(Clone, Copy, Debug, PartialEq, Eq, Structural)]
pub struct ItemCreateFlags {
    /// Replace an item whose attributes match, rather than add another.
    pub replace: bool,
}

/// Options of a connection to the service.
#[derive(Clone, Copy, Debug, PartialEq, Eq, Structural)]
pub struct ServiceFlags {
    pub open_session: bool,
    pub load_collections: bool,
}

pub const SEARCH_ALL_BIT: u32 = 2;

pub const SEARCH_UNLOCK_BIT: u32 = 4;

pub const SEARCH_LOAD_SECRETS_BIT: u32 = 8;

pub const ITEM_CREATE_REPLACE_BIT: u32 = 2;

pub const SERVICE_OPEN_SESSION_BIT: u32 = 2;

pub const SERVICE_LOAD_COLLECTIONS_BIT: u32 = 4;

/// `bit` when `on`, else nothing.
pub open spec fn bit_if(on: bool, bit: u32) -> u32 {
    if on {
        bit
    } else {
        0
    }
}

impl SearchFlags {
    /// No option.
    pub fn none() -> (r: SearchFlags)
        ensures
            !r.all && !r.unlock && !r.load_secrets,
    {
        SearchFlags { all: false, unlock: false, load_secrets: false }
    }

    /// The options of every search of this library: all items, unlocked,
    /// with their secrets.
    pub fn default_search() -> (r: SearchFlags)
        ensures
            r.all && r.unlock && r.load_secrets,
    {
        SearchFlags { all: true, unlock: true, load_secrets: true }
    }

    /// The options of either set.
    pub fn union(self, other: SearchFlags) -> (r: SearchFlags)
        ensures
            r.all == (self.all || other.all),
            r.unlock == (self.unlock || other.unlock),
            r.load_secrets == (self.load_secrets || other.load_secrets),
    {
        SearchFlags {
            all: self.all || other.all,
            unlock: self.unlock || other.unlock,
            load_secrets: self.load_secrets || other.load_secrets,
        }
    }

    /// Every option of `other` is in this set.
    pub fn contains(self, other: SearchFlags) -> (r: bool)
        ensures
            r == ((other.all ==> self.all) && (other.unlock ==> self.unlock) && (
            other.load_secrets ==> self.load_secrets)),
    {
        (!other.all || self.all) && (!other.unlock || self.unlock) && (!other.load_secrets
            || self.load_secrets)
    }

    /// The service's bit mask for this set.
    pub fn bits(self) -> (r: u32)
        ensures
            r == bit_if(self.all, SEARCH_ALL_BIT) + bit_if(self.unlock, SEARCH_UNLOCK_BIT)
                + bit_if(self.load_secrets, SEARCH_LOAD_SECRETS_BIT),
    {
        let mut r: u32 = 0;
        if self.all {
            r = r + SEARCH_ALL_BIT;
        }
        if self.unlock {
            r = r + SEARCH_UNLOCK_BIT;
        }
        if self.load_secrets {
            r = r + SEARCH_LOAD_SECRETS_BIT;
        }
        r
    }
}

impl ItemCreateFlags {
    pub fn none() -> (r: ItemCreateFlags)
        ensures
            !r.replace,
    {
        ItemCreateFlags { replace: false }
    }

    /// Replace an item whose attributes match.
    pub fn replace() -> (r: ItemCreateFlags)
        ensures
            r.replace,
    {
        ItemCreateFlags { replace: true }
    }

    pub fn bits(self) -> (r: u32)
        ensures
            r == bit_if(self.replace, ITEM_CREATE_REPLACE_BIT),
    {
        if self.replace {
            ITEM_CREATE_REPLACE_BIT
        } else {
            0
        }
    }
}

impl ServiceFlags {
    pub fn none() -> (r: ServiceFlags)
        ensures
            !r.open_session && !r.load_collections,
    {
        ServiceFlags { open_session: false, load_collections: false }
    }

    pub fn bits(self) -> (r: u32)
        ensures
            r == bit_if(self.open_session, SERVICE_OPEN_SESSION_BIT) + bit_if(
                self.load_collections,
                SERVICE_LOAD_COLLECTIONS_BIT,
            ),
    {
        let mut r: u32 = 0;
        if self.open_session {
            r = r + SERVICE_OPEN_SESSION_BIT;
        }
        if self.load_collections {
            r = r + SERVICE_LOAD_COLLECTIONS_BIT;
        }
        r
    }
}

} // verus!
