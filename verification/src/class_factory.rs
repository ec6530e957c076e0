use crate::custom_folder::CustomFolder;
use vstd::prelude::*;

verus! {

/// Makes the folders that the host asks for.
pub struct ClassFactory {
    _private: (),
}

impl ClassFactory {
    /// A factory.
    pub fn new() -> (r: Self) {
        ClassFactory { _private: () }
    }

    /// A new folder, not yet told its location.
    pub fn create_instance(&self) -> (r: CustomFolder)
        ensures
            r@ is None,
    {
        CustomFolder::new()
    }
}

impl Default for ClassFactory {
    fn default() -> (r: Self) {
        ClassFactory::new()
    }
}

} // verus!
