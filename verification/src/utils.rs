//! Random identifiers for pomodoro records.
use vstd::prelude::*;
use crate::sources::{Draw, thread_rng, sample_alphanumeric};

verus! {

pub open spec fn is_ascii_upper(b: u8) -> bool {
    65 <= b <= 90
}

pub open spec fn is_ascii_lower(b: u8) -> bool {
    97 <= b <= 122
}

pub open spec fn is_ascii_digit(b: u8) -> bool {
    48 <= b <= 57
}

pub open spec fn is_ascii_alnum(b: u8) -> bool {
    is_ascii_upper(b) || is_ascii_lower(b) || is_ascii_digit(b)
}

/// The upper-case form of an ASCII letter; other bytes are unchanged.
pub open spec fn ascii_upper(b: u8) -> u8 {
    if is_ascii_lower(b) {
        (b - 32) as u8
    } else {
        b
    }
}

fn to_ascii_uppercase(b: u8) -> (r: u8)
    ensures
        r == ascii_upper(b),
{
    if 97 <= b && b <= 122 {
        b - 32
    } else {
        b
    }
}

/// A character of an identifier: an upper-case ASCII letter or a digit.
pub open spec fn is_id_char(c: char) -> bool {
    ('A' <= c && c <= 'Z') || ('0' <= c && c <= '9')
}

/// Whether a character is an ASCII letter or digit that is upper case or a
/// digit.
fn accepts(c: char) -> (r: bool)
    ensures
        r == is_id_char(c),
{
    let alnum = ('A' <= c && c <= 'Z') || ('a' <= c && c <= 'z') || ('0' <= c && c <= '9');
    alnum && (('A' <= c && c <= 'Z') || ('0' <= c && c <= '9'))
}

/// The identifier made from sampled ASCII letters and digits: each one in
/// upper case.
pub open spec fn id_text(samples: Seq<u8>) -> Seq<char> {
    samples.map_values(|b: u8| ascii_upper(b) as char)
}

/// The identifier made from sampled bytes: each is turned to upper case and
/// kept when it is an upper-case letter or a digit.
pub fn id_from_samples(samples: &Vec<u8>) -> (r: String)
    requires
        forall|i: int| 0 <= i < samples@.len() ==> is_ascii_alnum(#[trigger] samples@[i]),
    ensures
        r@ == id_text(samples@),
{
    let mut id = String::new();
    for i in 0..samples.len()
        invariant
            forall|j: int| 0 <= j < samples@.len() ==> is_ascii_alnum(#[trigger] samples@[j]),
            id@ == id_text(samples@.take(i as int)),
    {
        let c = to_ascii_uppercase(samples[i]) as char;
        // An upper-cased letter or digit always passes the filter.
        assert(is_ascii_alnum(samples@[i as int]));
        assert(is_id_char(c));
        if accepts(c) {
            id.push(c);
        }
        assert(id_text(samples@.take(i + 1)) =~= id_text(samples@.take(i as int)).push(c));
    }
    assert(samples@.take(samples@.len() as int) == samples@);
    id
}

/// A random identifier of eight upper-case ASCII letters and digits: the
/// upper-case forms of eight sampled letters and digits.
pub fn generate_random_id() -> (r: String)
    ensures
        r@.len() == 8,
        forall|i: int| 0 <= i < 8 ==> is_id_char(#[trigger] r@[i]),
        exists|samples: Seq<u8>|
            samples.len() == 8 && (forall|i: int| 0 <= i < 8 ==> is_ascii_alnum(#[trigger] samples[i]))
                && r@ == id_text(samples),
{
    let mut rng = thread_rng();
    // Only the generator makes draws: each byte below is one of its samples.
    let mut draws: Vec<Draw> = Vec::new();
    let mut samples: Vec<u8> = Vec::new();
    while draws.len() < 8
        invariant
            draws@.len() <= 8,
            samples@.len() == draws@.len(),
            forall|j: int| 0 <= j < samples@.len() ==> samples@[j] == #[trigger] draws@[j]@,
            forall|j: int| 0 <= j < samples@.len() ==> is_ascii_alnum(#[trigger] samples@[j]),
        decreases 8 - draws@.len(),
    {
        let draw = sample_alphanumeric(&mut rng);
        samples.push(draw.byte());
        draws.push(draw);
    }
    let id = id_from_samples(&samples);
    proof {
        assert forall|i: int| 0 <= i < 8 implies is_id_char(#[trigger] id@[i]) by {
            assert(is_ascii_alnum(samples@[i]));
            assert(id@[i] == ascii_upper(samples@[i]) as char);
        }
    }
    id
}

} // verus!
