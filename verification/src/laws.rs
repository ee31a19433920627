use vstd::prelude::*;

use crate::content::Student;
use crate::errors::Error;
use crate::hashing::compact_of;
use crate::hashing::content_encoding;
use crate::hashing::lemma_compact_prefix_injective;
use crate::hashing::lemma_concat_cancel;
use crate::hashing::student_id_of;
use crate::registry::create_outcome;
use crate::registry::create_post;
use crate::registry::delete_outcome;
use crate::registry::delete_post;
use crate::registry::transfer_outcome;
use crate::registry::transfer_post;

verus! {

/// Create succeeds exactly when the content's identity is currently absent.
pub proof fn lemma_create_succeeds_iff_absent(m: Map<Seq<u8>, (u64, u64)>, sid: Seq<u8>)
    ensures
        create_outcome(m, sid) is Ok <==> !m.contains_key(sid),
{
}

/// Creating the same content twice with no intervening delete succeeds once
/// and then fails with StudentExist, whoever tries the second time.
pub proof fn lemma_create_twice_fails(
    m: Map<Seq<u8>, (u64, u64)>,
    sid: Seq<u8>,
    who: u64,
    height: u64,
)
    requires
        create_outcome(m, sid) is Ok,
    ensures
        create_outcome(create_post(m, sid, who, height), sid) == Err::<(), Error>(
            Error::StudentExist,
        ),
{
}

/// Deleting content that was never created (or is already deleted) fails with
/// StudentNotExist and changes nothing.
pub proof fn lemma_delete_never_created(m: Map<Seq<u8>, (u64, u64)>, sid: Seq<u8>, who: u64)
    requires
        !m.contains_key(sid),
    ensures
        delete_outcome(m, sid, who) == Err::<(), Error>(Error::StudentNotExist),
        delete_post(m, sid, who) == m,
{
}

/// After a create by `a`, a delete by any other identity fails with
/// NotStudentOwner and leaves the entry unchanged: `a` still owns it.
pub proof fn lemma_delete_by_non_owner(
    m: Map<Seq<u8>, (u64, u64)>,
    sid: Seq<u8>,
    a: u64,
    b: u64,
    height: u64,
)
    requires
        create_outcome(m, sid) is Ok,
        b != a,
    ensures
        delete_outcome(create_post(m, sid, a, height), sid, b) == Err::<(), Error>(
            Error::NotStudentOwner,
        ),
        delete_post(create_post(m, sid, a, height), sid, b) == create_post(m, sid, a, height),
        create_post(m, sid, a, height)[sid] == (a, height),
{
}

/// After a create by `a`, a transfer from `a` to `a` fails with TransferToSelf
/// and leaves the owner unchanged.
pub proof fn lemma_transfer_to_self_fails(
    m: Map<Seq<u8>, (u64, u64)>,
    sid: Seq<u8>,
    a: u64,
    height: u64,
)
    requires
        create_outcome(m, sid) is Ok,
    ensures
        transfer_outcome(create_post(m, sid, a, height), sid, a, a) == Err::<(), Error>(
            Error::TransferToSelf,
        ),
        transfer_post(create_post(m, sid, a, height), sid, a, a, height) == create_post(
            m,
            sid,
            a,
            height,
        ),
        create_post(m, sid, a, height)[sid].0 == a,
{
}

/// After a create by `a` and a transfer from `a` to a distinct `b`: `b` owns
/// the entry at the transfer's height, a delete by `a` now fails with
/// NotStudentOwner, and a delete by `b` succeeds.
pub proof fn lemma_transfer_moves_ownership(
    m: Map<Seq<u8>, (u64, u64)>,
    sid: Seq<u8>,
    a: u64,
    b: u64,
    h1: u64,
    h2: u64,
)
    requires
        create_outcome(m, sid) is Ok,
        b != a,
    ensures
        transfer_outcome(create_post(m, sid, a, h1), sid, a, b) is Ok,
        transfer_post(create_post(m, sid, a, h1), sid, a, b, h2)[sid] == (b, h2),
        delete_outcome(transfer_post(create_post(m, sid, a, h1), sid, a, b, h2), sid, a) == Err::<
            (),
            Error,
        >(Error::NotStudentOwner),
        delete_outcome(transfer_post(create_post(m, sid, a, h1), sid, a, b, h2), sid, b) is Ok,
        !delete_post(
            transfer_post(create_post(m, sid, a, h1), sid, a, b, h2),
            sid,
            b,
        ).contains_key(sid),
{
}

/// A failed operation is atomic: whichever guard rejected it, the map it
/// leaves behind is the map it found.
pub proof fn lemma_failure_changes_nothing(
    m: Map<Seq<u8>, (u64, u64)>,
    sid: Seq<u8>,
    from: u64,
    to: u64,
    height: u64,
)
    ensures
        create_outcome(m, sid) is Err ==> create_post(m, sid, from, height) == m,
        delete_outcome(m, sid, from) is Err ==> delete_post(m, sid, from) == m,
        transfer_outcome(m, sid, from, to) is Err ==> transfer_post(m, sid, from, to, height) == m,
{
}

/// The identity is a function of the content fields alone: equal fields give
/// the same identity, in every call.
pub proof fn lemma_identity_deterministic(c1: Student, c2: Student)
    requires
        c1.id@ == c2.id@,
        c1.name@ == c2.name@,
        c1.age == c2.age,
    ensures
        student_id_of(c1.id@, c1.name@, c1.age) == student_id_of(c2.id@, c2.name@, c2.age),
{
}

/// Contents that differ in the age alone are serialized to different byte
/// strings: the age is the last byte of the encoding. The digests of distinct
/// encodings are only overwhelmingly likely to differ, which no proof can
/// state, so the claim stops at the encoding.
pub proof fn lemma_encoding_age_sensitive(id: Seq<u8>, name: Seq<u8>, a1: u8, a2: u8)
    requires
        a1 != a2,
    ensures
        content_encoding(id, name, a1) != content_encoding(id, name, a2),
{
    let e1 = content_encoding(id, name, a1);
    let e2 = content_encoding(id, name, a2);
    assert(e1.last() == a1);
    assert(e2.last() == a2);
}

/// The content encoding is injective: equal encodings force equal fields.
/// This is what the length prefixes buy — concatenation without boundary
/// markers would let distinct (identifier, name) pairs collide — and it
/// reduces identity collisions to digest collisions alone.
pub proof fn lemma_content_encoding_injective(
    id1: Seq<u8>,
    name1: Seq<u8>,
    a1: u8,
    id2: Seq<u8>,
    name2: Seq<u8>,
    a2: u8,
)
    requires
        id1.len() <= u32::MAX,
        name1.len() <= u32::MAX,
        id2.len() <= u32::MAX,
        name2.len() <= u32::MAX,
        content_encoding(id1, name1, a1) == content_encoding(id2, name2, a2),
    ensures
        id1 == id2,
        name1 == name2,
        a1 == a2,
{
    let tail1 = id1 + (compact_of(name1.len()) + (name1 + seq![a1]));
    let tail2 = id2 + (compact_of(name2.len()) + (name2 + seq![a2]));
    assert(content_encoding(id1, name1, a1) =~= compact_of(id1.len()) + tail1);
    assert(content_encoding(id2, name2, a2) =~= compact_of(id2.len()) + tail2);
    lemma_compact_prefix_injective(id1.len(), tail1, id2.len(), tail2);
    lemma_concat_cancel(
        id1,
        compact_of(name1.len()) + (name1 + seq![a1]),
        id2,
        compact_of(name2.len()) + (name2 + seq![a2]),
    );
    lemma_compact_prefix_injective(name1.len(), name1 + seq![a1], name2.len(), name2 + seq![a2]);
    lemma_concat_cancel(name1, seq![a1], name2, seq![a2]);
    assert(seq![a1][0] == seq![a2][0]);
}

} // verus!
