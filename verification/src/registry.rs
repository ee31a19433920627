use vstd::prelude::*;

use crate::content::Student;
use crate::errors::Error;
use crate::guard::ensure_absent;
use crate::guard::ensure_distinct;
use crate::guard::ensure_owner;
use crate::guard::ensure_present;
use crate::hashing::identity_of;
use crate::hashing::student_id_of;
use crate::store::Students;

verus! {

/// A completed state change, kept for outside observers in the order the
/// operations were applied. Never read back by the registry itself.
#[derive(Clone, Debug, PartialEq, Eq)]
pub enum Event {
    /// A record was created: the acting identity and the content identity.
    CreateStudent(u64, [u8; 32]),
    /// A record was deleted: the acting identity and the content identity.
    DeleteStudent(u64, [u8; 32]),
    /// Ownership moved: previous owner, new owner, and the content identity.
    TransferStudent(u64, u64, [u8; 32]),
}

/// Whether an event records the creation of `sid` by `who`.
pub open spec fn is_create_event(e: Event, who: u64, sid: Seq<u8>) -> bool {
    match e {
        Event::CreateStudent(a, h) => a == who && h@ == sid,
        _ => false,
    }
}

/// Whether an event records the deletion of `sid` by `who`.
pub open spec fn is_delete_event(e: Event, who: u64, sid: Seq<u8>) -> bool {
    match e {
        Event::DeleteStudent(a, h) => a == who && h@ == sid,
        _ => false,
    }
}

/// Whether an event records the transfer of `sid` from `from` to `to`.
pub open spec fn is_transfer_event(e: Event, from: u64, to: u64, sid: Seq<u8>) -> bool {
    match e {
        Event::TransferStudent(a, b, h) => a == from && b == to && h@ == sid,
        _ => false,
    }
}

/// What create returns on a map: success exactly when the identity is absent.
pub open spec fn create_outcome(m: Map<Seq<u8>, (u64, u64)>, sid: Seq<u8>) -> Result<(), Error> {
    if m.contains_key(sid) {
        Err(Error::StudentExist)
    } else {
        Ok(())
    }
}

/// The map after create: unchanged on failure, otherwise the identity bound
/// to (creator, height).
pub open spec fn create_post(
    m: Map<Seq<u8>, (u64, u64)>,
    sid: Seq<u8>,
    who: u64,
    height: u64,
) -> Map<Seq<u8>, (u64, u64)> {
    if m.contains_key(sid) {
        m
    } else {
        m.insert(sid, (who, height))
    }
}

/// What delete returns on a map: absence, then ownership, are checked in turn.
pub open spec fn delete_outcome(m: Map<Seq<u8>, (u64, u64)>, sid: Seq<u8>, who: u64) -> Result<
    (),
    Error,
> {
    if !m.contains_key(sid) {
        Err(Error::StudentNotExist)
    } else if m[sid].0 != who {
        Err(Error::NotStudentOwner)
    } else {
        Ok(())
    }
}

/// The map after delete: unchanged on failure, otherwise the identity unbound.
pub open spec fn delete_post(m: Map<Seq<u8>, (u64, u64)>, sid: Seq<u8>, who: u64) -> Map<
    Seq<u8>,
    (u64, u64),
> {
    if delete_outcome(m, sid, who) is Ok {
        m.remove(sid)
    } else {
        m
    }
}

/// What transfer returns on a map: absence, ownership, then self-transfer are
/// checked in turn.
pub open spec fn transfer_outcome(
    m: Map<Seq<u8>, (u64, u64)>,
    sid: Seq<u8>,
    from: u64,
    to: u64,
) -> Result<(), Error> {
    if !m.contains_key(sid) {
        Err(Error::StudentNotExist)
    } else if m[sid].0 != from {
        Err(Error::NotStudentOwner)
    } else if from == to {
        Err(Error::TransferToSelf)
    } else {
        Ok(())
    }
}

/// The map after transfer: unchanged on failure, otherwise the identity bound
/// to (recipient, height) — the height is refreshed, not preserved.
pub open spec fn transfer_post(
    m: Map<Seq<u8>, (u64, u64)>,
    sid: Seq<u8>,
    from: u64,
    to: u64,
    height: u64,
) -> Map<Seq<u8>, (u64, u64)> {
    if transfer_outcome(m, sid, from, to) is Ok {
        m.insert(sid, (to, height))
    } else {
        m
    }
}

/// The registry service: owns the ownership map, the ledger height the host
/// last supplied, and the events emitted so far. Every operation validates
/// fully before mutating, so a failed operation changes nothing.
pub struct Pallet {
    store: Students,
    events: Vec<Event>,
    block_number: u64,
}

impl Pallet {
    /// The ownership map: content identity to (owner, height).
    pub closed spec fn owners(self) -> Map<Seq<u8>, (u64, u64)> {
        self.store@
    }

    /// The events emitted so far, oldest first.
    pub closed spec fn events_seq(self) -> Seq<Event> {
        self.events@
    }

    /// The ledger height the host last supplied.
    pub closed spec fn height(self) -> u64 {
        self.block_number
    }

    /// The store keeps at most one entry per identity.
    pub closed spec fn wf(self) -> bool {
        self.store.wf()
    }

    /// A fresh registry: nothing owned, nothing emitted, height zero.
    pub fn new() -> (r: Pallet)
        ensures
            r.wf(),
            r.owners() == Map::<Seq<u8>, (u64, u64)>::empty(),
            r.events_seq() == Seq::<Event>::empty(),
            r.height() == 0,
    {
        Pallet { store: Students::new(), events: Vec::new(), block_number: 0 }
    }

    /// The host supplies the current ledger height before dispatching an
    /// operation; the registry itself never advances it.
    pub fn set_block_number(&mut self, n: u64)
        ensures
            final(self).wf() == old(self).wf(),
            final(self).owners() == old(self).owners(),
            final(self).events_seq() == old(self).events_seq(),
            final(self).height() == n,
    {
        self.block_number = n;
    }

    /// Ownership lookup by content identity.
    pub fn students(&self, key: &[u8; 32]) -> (r: Option<(u64, u64)>)
        requires
            self.wf(),
        ensures
            match r {
                Some(e) => self.owners().contains_key(key@) && self.owners()[key@] == e,
                None => !self.owners().contains_key(key@),
            },
    {
        self.store.get(key)
    }

    /// The events emitted so far, oldest first.
    pub fn events(&self) -> (r: &Vec<Event>)
        ensures
            r@ == self.events_seq(),
    {
        &self.events
    }

    /// Create a record for this content: fails with StudentExist exactly when
    /// its identity is already owned; otherwise binds it to (origin, current
    /// height) and emits CreateStudent.
    pub fn create_student(&mut self, origin: u64, id: Vec<u8>, name: Vec<u8>, age: u8) -> (r:
        Result<(), Error>)
        requires
            old(self).wf(),
            id@.len() <= u32::MAX,
            name@.len() <= u32::MAX,
        ensures
            final(self).wf(),
            final(self).height() == old(self).height(),
            r == create_outcome(old(self).owners(), student_id_of(id@, name@, age)),
            final(self).owners() == create_post(
                old(self).owners(),
                student_id_of(id@, name@, age),
                origin,
                old(self).height(),
            ),
            r is Ok ==> final(self).events_seq().len() == old(self).events_seq().len() + 1
                && final(self).events_seq().take(old(self).events_seq().len() as int) == old(
                self,
            ).events_seq() && is_create_event(
                final(self).events_seq().last(),
                origin,
                student_id_of(id@, name@, age),
            ),
            r is Err ==> final(self).events_seq() == old(self).events_seq(),
    {
        let student = Student { id, name, age };
        let student_id = identity_of(&student);
        match ensure_absent(&self.store, &student_id) {
            Ok(_) => {},
            Err(e) => {
                return Err(e);
            },
        }
        let current_block = self.block_number;
        self.store.insert(student_id, (origin, current_block));
        self.events.push(Event::CreateStudent(origin, student_id));
        proof {
            assert(self.events@.take(old(self).events@.len() as int) =~= old(self).events@);
        }
        Ok(())
    }

    /// Delete the record for this content: fails with StudentNotExist when its
    /// identity is unowned and NotStudentOwner when the caller does not own
    /// it; otherwise unbinds it and emits DeleteStudent.
    pub fn delete_student(&mut self, origin: u64, id: Vec<u8>, name: Vec<u8>, age: u8) -> (r:
        Result<(), Error>)
        requires
            old(self).wf(),
            id@.len() <= u32::MAX,
            name@.len() <= u32::MAX,
        ensures
            final(self).wf(),
            final(self).height() == old(self).height(),
            r == delete_outcome(old(self).owners(), student_id_of(id@, name@, age), origin),
            final(self).owners() == delete_post(
                old(self).owners(),
                student_id_of(id@, name@, age),
                origin,
            ),
            r is Ok ==> final(self).events_seq().len() == old(self).events_seq().len() + 1
                && final(self).events_seq().take(old(self).events_seq().len() as int) == old(
                self,
            ).events_seq() && is_delete_event(
                final(self).events_seq().last(),
                origin,
                student_id_of(id@, name@, age),
            ),
            r is Err ==> final(self).events_seq() == old(self).events_seq(),
    {
        let student = Student { id, name, age };
        let student_id = identity_of(&student);
        let entry = match ensure_present(&self.store, &student_id) {
            Ok(e) => e,
            Err(e) => {
                return Err(e);
            },
        };
        match ensure_owner(entry, origin) {
            Ok(_) => {},
            Err(e) => {
                return Err(e);
            },
        }
        self.store.remove(&student_id);
        self.events.push(Event::DeleteStudent(origin, student_id));
        proof {
            assert(self.events@.take(old(self).events@.len() as int) =~= old(self).events@);
        }
        Ok(())
    }

    /// Transfer the record for this content from the caller to `to`: the
    /// guards run in order — existence, ownership, non-self-transfer — and on
    /// success the entry is re-bound to (to, current height) and
    /// TransferStudent is emitted.
    pub fn transfer_student(
        &mut self,
        origin: u64,
        to: u64,
        id: Vec<u8>,
        name: Vec<u8>,
        age: u8,
    ) -> (r: Result<(), Error>)
        requires
            old(self).wf(),
            id@.len() <= u32::MAX,
            name@.len() <= u32::MAX,
        ensures
            final(self).wf(),
            final(self).height() == old(self).height(),
            r == transfer_outcome(old(self).owners(), student_id_of(id@, name@, age), origin, to),
            final(self).owners() == transfer_post(
                old(self).owners(),
                student_id_of(id@, name@, age),
                origin,
                to,
                old(self).height(),
            ),
            r is Ok ==> final(self).events_seq().len() == old(self).events_seq().len() + 1
                && final(self).events_seq().take(old(self).events_seq().len() as int) == old(
                self,
            ).events_seq() && is_transfer_event(
                final(self).events_seq().last(),
                origin,
                to,
                student_id_of(id@, name@, age),
            ),
            r is Err ==> final(self).events_seq() == old(self).events_seq(),
    {
        let student = Student { id, name, age };
        let student_id = identity_of(&student);
        match self.transfer_student_to(&student_id, origin, to) {
            Ok(_) => {},
            Err(e) => {
                return Err(e);
            },
        }
        self.events.push(Event::TransferStudent(origin, to, student_id));
        proof {
            assert(self.events@.take(old(self).events@.len() as int) =~= old(self).events@);
        }
        Ok(())
    }

    /// The transfer step on an already-computed identity: checks existence,
    /// ownership and non-self-transfer in that order, then re-binds the entry
    /// to the recipient at the current height. Emits nothing — the caller
    /// reports the event.
    pub fn transfer_student_to(&mut self, student_id: &[u8; 32], from: u64, to: u64) -> (r: Result<
        (),
        Error,
    >)
        requires
            old(self).wf(),
        ensures
            final(self).wf(),
            final(self).height() == old(self).height(),
            final(self).events_seq() == old(self).events_seq(),
            r == transfer_outcome(old(self).owners(), student_id@, from, to),
            final(self).owners() == transfer_post(
                old(self).owners(),
                student_id@,
                from,
                to,
                old(self).height(),
            ),
    {
        let entry = match ensure_present(&self.store, student_id) {
            Ok(e) => e,
            Err(e) => {
                return Err(e);
            },
        };
        match ensure_owner(entry, from) {
            Ok(_) => {},
            Err(e) => {
                return Err(e);
            },
        }
        match ensure_distinct(from, to) {
            Ok(_) => {},
            Err(e) => {
                return Err(e);
            },
        }
        self.store.remove(student_id);
        let current_block = self.block_number;
        self.store.insert(*student_id, (to, current_block));
        proof {
            assert(old(self).owners().remove(student_id@).insert(student_id@, (to, current_block))
                =~= old(self).owners().insert(student_id@, (to, current_block)));
        }
        Ok(())
    }
}

} // verus!
