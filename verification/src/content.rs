use vstd::prelude::*;

verus! {

/// A record's content: an identifier, a name and an age.
///
/// Two content values are the same record exactly when all three fields agree;
/// the registry addresses a record by a digest of these fields, never by any
/// one of them, so changing any field — the age included — names an unrelated
/// record.
#[derive(Clone, Debug)]
pub struct Student {
    pub id: Vec<u8>,
    pub name: Vec<u8>,
    pub age: u8,
}

impl Student {
    /// Both byte fields are short enough for a compact length prefix, the one
    /// machine limit the encoding imposes.
    pub open spec fn encodable(self) -> bool {
        self.id@.len() <= u32::MAX && self.name@.len() <= u32::MAX
    }
}

} // verus!
