use crate::hresult::{E_FAIL, E_INVALIDARG, E_OUTOFMEMORY, HRESULT, S_FALSE, S_OK};
use crate::id_enumerator::{listing, Cursor, EnumIdList};
use crate::itemidlist::{chain_wire, parse_chain, representable, spells, wire_len, ItemIdList, segment_bytes};
use crate::order::chain_order;
use crate::round_trip::lemma_parsed_bytes;
use crate::wide::{padded, string_buffer};
use vstd::prelude::*;

verus! {

/// The flag with which the host asks an enumeration for folders.
pub const SHCONTF_FOLDERS: u32 = 32;

/// The flag with which the host asks an enumeration for items that are not
/// folders.
pub const SHCONTF_NONFOLDERS: u32 = 64;

/// The names of the entries that the folder lists.
pub open spec fn virtual_fs_names() -> Seq<&'static str> {
    seq!["Hi!", "Meow, ", "comment", "ça", "va", "?"]
}

/// The folder's listing: one chain of one segment for each entry.
pub fn virtual_fs() -> (r: Vec<ItemIdList<'static>>)
    ensures
        r@.len() == virtual_fs_names().len(),
        forall|i: int|
            0 <= i < r@.len() ==> spells((#[trigger] r@[i])@, seq![virtual_fs_names()[i]]),
{
    let mut chains: Vec<ItemIdList<'static>> = Vec::new();
    chains.push(ItemIdList::from(vec!["Hi!"]));
    chains.push(ItemIdList::from(vec!["Meow, "]));
    chains.push(ItemIdList::from(vec!["comment"]));
    chains.push(ItemIdList::from(vec!["ça"]));
    chains.push(ItemIdList::from(vec!["va"]));
    chains.push(ItemIdList::from(vec!["?"]));
    chains
}

/// A folder of the namespace. It remembers where in the namespace the host
/// has put it, once the host has said so.
pub struct CustomFolder {
    location: Option<ItemIdList<'static>>,
}

impl View for CustomFolder {
    type V = Option<Seq<Seq<u8>>>;

    closed spec fn view(&self) -> Option<Seq<Seq<u8>>> {
        match self.location {
            None => None,
            Some(chain) => Some(chain@),
        }
    }
}

impl CustomFolder {
    #[verifier::type_invariant]
    spec fn well_formed(self) -> bool {
        match self.location {
            None => true,
            Some(chain) => representable(chain@),
        }
    }

    /// A folder that has not been told its location.
    pub fn new() -> (r: Self)
        ensures
            r@ is None,
    {
        CustomFolder { location: None }
    }

    /// Takes the folder's location from the chain at the start of `pidl` and
    /// keeps a copy of it. A buffer that holds no whole chain is refused and
    /// leaves the folder as it was.
    pub fn initialize(&mut self, pidl: &[u8]) -> (r: HRESULT)
        ensures
            match parse_chain(pidl@, 0) {
                Some(chain) => r == HRESULT(S_OK) && final(self)@ == Some(chain),
                None => r == HRESULT(E_INVALIDARG) && final(self)@ == old(self)@,
            },
    {
        match ItemIdList::decode_owned(pidl) {
            Ok(chain) => {
                proof {
                    lemma_parsed_bytes(pidl@, 0, chain@);
                }
                self.location = Some(chain);
                HRESULT(S_OK)
            },
            Err(e) => HRESULT::from_error(e),
        }
    }

    /// The folder's location in its byte layout, in a buffer that the caller
    /// then owns. The negative success when the folder has not been told its
    /// location.
    pub fn get_cur_folder(&self) -> (r: Result<Vec<u8>, HRESULT>)
        ensures
            self@ is None ==> (r matches Err(e) && e == HRESULT(S_FALSE)),
            self@ matches Some(chain) ==> (r matches Ok(bytes) && bytes@ == chain_wire(chain)) || (
            r matches Err(e) && e == HRESULT(E_OUTOFMEMORY)),
    {
        proof {
            use_type_invariant(self);
        }
        match &self.location {
            None => Err(HRESULT(S_FALSE)),
            Some(chain) => match chain.encode() {
                Ok(bytes) => Ok(bytes),
                Err(e) => Err(HRESULT::from_error(e)),
            },
        }
    }

    /// A cursor at the start of `entries`, if the host asks for folders;
    /// else none, with the negative success.
    pub fn enum_objects<'a>(&self, grfflags: u32, entries: &'a [ItemIdList<'a>]) -> (r: (
        Option<EnumIdList<'a>>,
        HRESULT,
    ))
        ensures
            grfflags & SHCONTF_FOLDERS == 0 ==> r.0 is None && r.1 == HRESULT(S_FALSE),
            grfflags & SHCONTF_FOLDERS != 0 ==> (r.0 matches Some(cursor) && cursor@ == (Cursor {
                position: 0,
                snapshot: listing(entries@),
            })) && r.1 == HRESULT(S_OK),
    {
        if grfflags & SHCONTF_FOLDERS == 0 {
            (None, HRESULT(S_FALSE))
        } else {
            (Some(EnumIdList::new(entries)), HRESULT(S_OK))
        }
    }

    /// Orders the chains at the start of the two buffers for the host's
    /// sorting. The status is a success that carries the order as a signed
    /// 16-bit number in its low half: 0xFFFF when the first chain comes
    /// first, 0 when the two are equal, 1 when the second comes first. A
    /// buffer that holds no whole chain is refused.
    pub fn compare_ids(&self, pidl1: &[u8], pidl2: &[u8]) -> (r: HRESULT)
        ensures
            match (parse_chain(pidl1@, 0), parse_chain(pidl2@, 0)) {
                (Some(a), Some(b)) => r == HRESULT::of_order(chain_order(a, b)),
                _ => r == HRESULT(E_INVALIDARG),
            },
    {
        match ItemIdList::decode(pidl1) {
            Err(e) => HRESULT::from_error(e),
            Ok(a) => match ItemIdList::decode(pidl2) {
                Err(e) => HRESULT::from_error(e),
                Ok(b) => HRESULT::from_order(a.compare(&b)),
            },
        }
    }

    /// The display name of the entry that the chain at the start of `pidl`
    /// names: the payload of its one segment as text, in a buffer for the
    /// host. A chain of no segment or of several names no entry of this
    /// folder and fails; a buffer that holds no whole chain is refused.
    pub fn get_display_name_of(&self, pidl: &[u8]) -> (r: Result<Vec<u8>, HRESULT>)
        ensures
            match parse_chain(pidl@, 0) {
                Some(chain) => if chain.len() == 1 {
                    r matches Ok(name) && name@ == padded(chain[0])
                } else {
                    r matches Err(e) && e == HRESULT(E_FAIL)
                },
                None => r matches Err(e) && e == HRESULT(E_INVALIDARG),
            },
    {
        match ItemIdList::decode(pidl) {
            Err(e) => Err(HRESULT::from_error(e)),
            Ok(chain) => {
                if chain.len() != 1 {
                    Err(HRESULT(E_FAIL))
                } else {
                    Ok(string_buffer(segment_bytes(&chain.0[0])))
                }
            },
        }
    }
}

impl Default for CustomFolder {
    fn default() -> (r: Self)
        ensures
            r@ is None,
    {
        CustomFolder::new()
    }
}

} // verus!
