//! Stable identifiers: a 64-bit fingerprint of the identifying texts, written
//! as sixteen lower-case hexadecimal digits.

use std::collections::hash_map::DefaultHasher;
use std::hash::Hasher;
use crate::numerals::{hex16, push_hex16};
use vstd::bytes::{spec_u64_to_le_bytes, u64_to_le_bytes};
use vstd::prelude::*;
use vstd::std_specs::hash::DefaultHasherAdditionalSpecFns;
use vstd::string::StringSliceAdditionalSpecFns;
use vstd::utf8::encode_utf8;

verus! {

/// What hashing one text feeds to the hasher: its UTF-8 bytes, then a single
/// `0xff` byte, which no UTF-8 text contains, so that consecutive texts
/// cannot run into each other.
pub open spec fn text_block(s: Seq<char>) -> Seq<Seq<u8>> {
    seq![encode_utf8(s), seq![0xffu8]]
}

/// The content fingerprint of an entry: date, subject and task, in that order.
pub open spec fn source_id_of(date: Seq<char>, subject: Seq<char>, task: Seq<char>) -> Seq<char> {
    hex16(DefaultHasher::spec_finish(text_block(date) + text_block(subject) + text_block(task)))
}

/// What is hashed for a study session: the parent's identifier, the number of
/// days before the test as eight little-endian bytes, and the word `study`.
pub open spec fn study_session_input(parent_id: Seq<char>, days_before: usize) -> Seq<Seq<u8>> {
    text_block(parent_id) + seq![spec_u64_to_le_bytes(days_before as u64)] + text_block("study"@)
}

/// The identifier of the study session `days_before` days ahead of the test `parent_id`.
pub open spec fn study_session_id_of(parent_id: Seq<char>, days_before: usize) -> Seq<char> {
    "study_"@ + hex16(DefaultHasher::spec_finish(study_session_input(parent_id, days_before)))
}

fn write_text(hasher: &mut DefaultHasher, s: &str)
    ensures
        final(hasher)@ == old(hasher)@ + text_block(s@),
{
    hasher.write(s.as_bytes());
    let end: Vec<u8> = vec![0xffu8];
    hasher.write(end.as_slice());
    assert(end@ =~= seq![0xffu8]);
    assert(old(hasher)@.push(encode_utf8(s@)).push(seq![0xffu8]) =~= old(hasher)@ + text_block(s@));
}

/// The content fingerprint of (date, subject, task).
pub fn generate_source_id(date: &str, subject: &str, task: &str) -> (r: String)
    ensures
        r@ == source_id_of(date@, subject@, task@),
{
    let mut hasher = DefaultHasher::new();
    write_text(&mut hasher, date);
    write_text(&mut hasher, subject);
    write_text(&mut hasher, task);
    assert(hasher@ =~= text_block(date@) + text_block(subject@) + text_block(task@));
    let mut out = String::new();
    push_hex16(&mut out, hasher.finish());
    assert(Seq::<char>::empty() + source_id_of(date@, subject@, task@) =~= source_id_of(
        date@,
        subject@,
        task@,
    ));
    out
}

/// The identifier of a study session, fixed by the test it belongs to and by
/// how many days before the test it falls.
pub fn compute_study_session_id(parent_id: &str, days_before: usize) -> (r: String)
    ensures
        r@ == study_session_id_of(parent_id@, days_before),
{
    let mut hasher = DefaultHasher::new();
    write_text(&mut hasher, parent_id);
    let count: Vec<u8> = u64_to_le_bytes(days_before as u64);
    hasher.write(count.as_slice());
    write_text(&mut hasher, "study");
    assert(hasher@ =~= study_session_input(parent_id@, days_before));
    let mut out = String::from_str("study_");
    push_hex16(&mut out, hasher.finish());
    out
}

} // verus!
